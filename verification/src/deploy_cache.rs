//! Finding a deployment by the value of any of its labels.
use vstd::prelude::*;

use crate::kubernetes::{text_of, Deployment, Metadata};
use crate::text::same_text;

verus! {

/// Whether one of the labels of an object has the value `value`.
pub open spec fn has_label_value(metadata: Metadata, value: Seq<char>) -> bool {
    exists|i: int| 0 <= i < metadata.labels@.len() && #[trigger] metadata.labels@[i].value@ == value
}

/// The name of the first deployment that has a label with the value `value`. There is none where
/// no deployment does, or where the first that does has no name.
pub open spec fn labelled_name(deployments: Seq<Deployment>, value: Seq<char>) -> Option<Seq<char>>
    decreases deployments.len(),
{
    if deployments.len() == 0 {
        None
    } else if has_label_value(deployments[0].metadata, value) {
        text_of(deployments[0].metadata.name)
    } else {
        labelled_name(deployments.drop_first(), value)
    }
}

/// Whether one of the labels of a deployment has the value `str`.
pub fn filter_label_value(dep: &Deployment, str: &str) -> (found: bool)
    ensures
        found == has_label_value(dep.metadata, str@),
{
    for i in 0..dep.metadata.labels.len()
        invariant
            forall|j: int| 0 <= j < i ==> #[trigger] dep.metadata.labels@[j].value@ != str@,
    {
        if same_text(dep.metadata.labels[i].value.as_str(), str) {
            assert(dep.metadata.labels@[i as int].value@ == str@);
            return true;
        }
    }
    false
}

/// The cluster behind a client, and the deployments that it listed for the label of servers. `C` is
/// the client.
#[derive(Debug)]
pub struct Cache<C> {
    pub client: C,
    pub deployments: Vec<Deployment>,
}

impl<C> Cache<C> {
    /// The cluster behind `client`, which has listed nothing yet, or nothing where no client could
    /// be made.
    pub fn create(client: Option<C>) -> (cache: Option<Cache<C>>)
        ensures
            match client {
                Some(made) => {
                    &&& cache matches Some(c)
                    &&& c.client == made
                    &&& c.deployments@ == Seq::<Deployment>::empty()
                },
                None => cache is None,
            },
    {
        match client {
            Some(client) => Some(Cache { client, deployments: Vec::new() }),
            None => None,
        }
    }

    /// The deployments.
    pub fn get_deploys(&self) -> (deployments: &Vec<Deployment>)
        ensures
            deployments@ == self.deployments@,
    {
        &self.deployments
    }

    /// The name of the first deployment that has a label with the value `addr`.
    pub fn query_addr(&self, addr: String) -> (name: Option<String>)
        ensures
            text_of(name) == labelled_name(self.deployments@, addr@),
    {
        let deploys = self.get_deploys();
        assert(deploys@.skip(0) =~= deploys@);
        for i in 0..deploys.len()
            invariant
                deploys@ == self.deployments@,
                labelled_name(deploys@.skip(i as int), addr@) == labelled_name(deploys@, addr@),
        {
            let ghost rest = deploys@.skip(i as int);
            assert(rest.drop_first() =~= deploys@.skip(i + 1));
            assert(rest[0] == deploys@[i as int]);
            if filter_label_value(&deploys[i], addr.as_str()) {
                return match &deploys[i].metadata.name {
                    Some(name) => Some(name.clone()),
                    None => None,
                };
            }
        }
        None
    }
}

/// A deployment is found by the value of any of its labels, wherever that stands and whatever its
/// key is, and by nothing else.
pub proof fn law_any_value_is_found(dep: Deployment, str: &str, found: bool)
    requires
        call_ensures(filter_label_value, (&dep, str), found),
    ensures
        found <==> exists|i: int|
            0 <= i < dep.metadata.labels@.len() && #[trigger] dep.metadata.labels@[i].value@
                == str@,
{
}

/// The name that is found is that of the first listed deployment with such a value.
pub proof fn law_first_labelled_is_named<C>(
    cache: Cache<C>,
    addr: String,
    name: Option<String>,
    at: int,
)
    requires
        call_ensures(Cache::<C>::query_addr, (&cache, addr), name),
        0 <= at < cache.deployments@.len(),
        has_label_value(cache.deployments@[at].metadata, addr@),
        forall|i: int|
            0 <= i < at ==> !has_label_value((#[trigger] cache.deployments@[i]).metadata, addr@),
    ensures
        match cache.deployments@[at].metadata.name {
            Some(own) => name matches Some(n) && n@ == own@,
            None => name is None,
        },
{
    lemma_first_labelled(cache.deployments@, addr@, at);
}

proof fn lemma_first_labelled(deployments: Seq<Deployment>, value: Seq<char>, at: int)
    requires
        0 <= at < deployments.len(),
        has_label_value(deployments[at].metadata, value),
        forall|i: int|
            0 <= i < at ==> !has_label_value((#[trigger] deployments[i]).metadata, value),
    ensures
        labelled_name(deployments, value) == text_of(deployments[at].metadata.name),
    decreases deployments.len(),
{
    if at > 0 {
        let rest = deployments.drop_first();
        assert(!has_label_value(deployments[0].metadata, value));
        assert forall|i: int| 0 <= i < at - 1 implies !has_label_value(
            (#[trigger] rest[i]).metadata,
            value,
        ) by {
            assert(rest[i] == deployments[i + 1]);
        }
        lemma_first_labelled(rest, value, at - 1);
    }
}

/// Where no listed deployment has such a value, no name is found.
pub proof fn law_no_labelled_is_made_up<C>(cache: Cache<C>, addr: String, name: Option<String>)
    requires
        call_ensures(Cache::<C>::query_addr, (&cache, addr), name),
        forall|i: int|
            0 <= i < cache.deployments@.len() ==> !has_label_value(
                (#[trigger] cache.deployments@[i]).metadata,
                addr@,
            ),
    ensures
        name is None,
{
    lemma_none_labelled(cache.deployments@, addr@);
}

proof fn lemma_none_labelled(deployments: Seq<Deployment>, value: Seq<char>)
    requires
        forall|i: int|
            0 <= i < deployments.len() ==> !has_label_value(
                (#[trigger] deployments[i]).metadata,
                value,
            ),
    ensures
        labelled_name(deployments, value) is None,
    decreases deployments.len(),
{
    if deployments.len() > 0 {
        let rest = deployments.drop_first();
        assert forall|i: int| 0 <= i < rest.len() implies !has_label_value(
            (#[trigger] rest[i]).metadata,
            value,
        ) by {
            assert(rest[i] == deployments[i + 1]);
        }
        lemma_none_labelled(rest, value);
    }
}

} // verus!

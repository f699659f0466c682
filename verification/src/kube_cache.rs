//! Finding the objects of a server in the cluster.
use vstd::prelude::*;

use crate::kubernetes::{text_of, Deployment, Label, Metadata, Resource, Service};
use crate::text::same_text;

verus! {

/// The label that holds the address of a server. The objects that have it are those of servers.
pub const ADDR_LABEL: &'static str = "tami.moe/minecraft";

/// The label that holds the port of a server.
pub const PORT_LABEL: &'static str = "tami.moe/minecraft-port";

/// Whether a label says that its object serves the address `addr` or the port `port`.
pub open spec fn label_serves(label: Label, addr: Seq<char>, port: Seq<char>) -> bool {
    ||| label.key@ == ADDR_LABEL@ && label.value@ == addr
    ||| label.key@ == PORT_LABEL@ && label.value@ == port
}

/// Whether an object serves the address `addr` or the port `port`: one of its labels says so.
pub open spec fn serves(metadata: Metadata, addr: Seq<char>, port: Seq<char>) -> bool {
    exists|i: int|
        0 <= i < metadata.labels@.len() && label_serves(#[trigger] metadata.labels@[i], addr, port)
}

/// The name of the first object that serves the address `addr` or the port `port`. There is none
/// where no object does, or where the first that does has no name.
pub open spec fn serving_name<R: Resource>(
    objects: Seq<R>,
    addr: Seq<char>,
    port: Seq<char>,
) -> Option<Seq<char>>
    decreases objects.len(),
{
    if objects.len() == 0 {
        None
    } else if serves(objects[0].described(), addr, port) {
        text_of(objects[0].described().name)
    } else {
        serving_name(objects.drop_first(), addr, port)
    }
}

/// Whether an object serves the address `addr` or the port `port`.
pub fn filter_label_value<R: Resource>(object: &R, addr: &str, port: &str) -> (found: bool)
    ensures
        found == serves(object.described(), addr@, port@),
{
    let metadata = object.metadata();
    for i in 0..metadata.labels.len()
        invariant
            *metadata == object.described(),
            forall|j: int| 0 <= j < i ==> !label_serves(
                #[trigger] metadata.labels@[j],
                addr@,
                port@,
            ),
    {
        let label = &metadata.labels[i];
        if same_text(label.key.as_str(), ADDR_LABEL) {
            if same_text(label.value.as_str(), addr) {
                assert(label_serves(metadata.labels@[i as int], addr@, port@));
                return true;
            }
        }
        if same_text(label.key.as_str(), PORT_LABEL) {
            if same_text(label.value.as_str(), port) {
                assert(label_serves(metadata.labels@[i as int], addr@, port@));
                return true;
            }
        }
    }
    false
}

/// The name of the first object that serves the address `addr` or the port `port`.
pub fn find_serving_name<R: Resource>(objects: &Vec<R>, addr: &str, port: &str) -> (name: Option<
    String,
>)
    ensures
        text_of(name) == serving_name(objects@, addr@, port@),
{
    assert(objects@.skip(0) =~= objects@);
    for i in 0..objects.len()
        invariant
            serving_name(objects@.skip(i as int), addr@, port@) == serving_name(
                objects@,
                addr@,
                port@,
            ),
    {
        let ghost rest = objects@.skip(i as int);
        assert(rest.drop_first() =~= objects@.skip(i + 1));
        assert(rest[0] == objects@[i as int]);
        if filter_label_value(&objects[i], addr, port) {
            return match &objects[i].metadata().name {
                Some(name) => Some(name.clone()),
                None => None,
            };
        }
    }
    None
}

/// The cluster behind a client, and the objects that it listed for the label of servers. `C` is the
/// client.
#[derive(Clone, Debug)]
pub struct KubeCache<C> {
    pub client: C,
    pub deployments: Vec<Deployment>,
    pub services: Vec<Service>,
}

impl<C> KubeCache<C> {
    /// The cluster behind `client`, which has listed nothing yet, or nothing where no client could
    /// be made.
    pub fn create(client: Option<C>) -> (cache: Option<KubeCache<C>>)
        ensures
            match client {
                Some(made) => {
                    &&& cache matches Some(c)
                    &&& c.client == made
                    &&& c.deployments@ == Seq::<Deployment>::empty()
                    &&& c.services@ == Seq::<Service>::empty()
                },
                None => cache is None,
            },
    {
        match client {
            Some(client) => Some(
                KubeCache { client, deployments: Vec::new(), services: Vec::new() },
            ),
            None => None,
        }
    }

    /// The name of the deployment that serves the address `addr` or the port `port`.
    pub fn query_dep_addr(&self, addr: &str, port: &str) -> (name: Option<String>)
        ensures
            text_of(name) == serving_name(self.deployments@, addr@, port@),
    {
        find_serving_name(&self.deployments, addr, port)
    }

    /// The name of the service that serves the address `addr` or the port `port`.
    pub fn query_srv_addr(&self, addr: &str, port: &str) -> (name: Option<String>)
        ensures
            text_of(name) == serving_name(self.services@, addr@, port@),
    {
        find_serving_name(&self.services, addr, port)
    }
}

/// The first object that serves the address or the port is the one whose name is found.
pub proof fn law_first_server_is_found<R: Resource>(
    objects: Seq<R>,
    at: int,
    addr: Seq<char>,
    port: Seq<char>,
)
    requires
        0 <= at < objects.len(),
        serves(objects[at].described(), addr, port),
        forall|i: int| 0 <= i < at ==> !serves((#[trigger] objects[i]).described(), addr, port),
    ensures
        serving_name(objects, addr, port) == text_of(objects[at].described().name),
    decreases objects.len(),
{
    if at > 0 {
        let rest = objects.drop_first();
        assert(!serves(objects[0].described(), addr, port));
        assert forall|i: int| 0 <= i < at - 1 implies !serves(
            (#[trigger] rest[i]).described(),
            addr,
            port,
        ) by {
            assert(rest[i] == objects[i + 1]);
        }
        law_first_server_is_found(rest, at - 1, addr, port);
    }
}

/// Where no object serves the address or the port, no name is found.
pub proof fn law_no_server_is_made_up<R: Resource>(
    objects: Seq<R>,
    addr: Seq<char>,
    port: Seq<char>,
)
    requires
        forall|i: int|
            0 <= i < objects.len() ==> !serves((#[trigger] objects[i]).described(), addr, port),
    ensures
        serving_name(objects, addr, port) is None,
    decreases objects.len(),
{
    if objects.len() > 0 {
        let rest = objects.drop_first();
        assert forall|i: int| 0 <= i < rest.len() implies !serves(
            (#[trigger] rest[i]).described(),
            addr,
            port,
        ) by {
            assert(rest[i] == objects[i + 1]);
        }
        law_no_server_is_made_up(rest, addr, port);
    }
}

/// An object serves an address and a port exactly if one of its labels, wherever it stands, gives
/// the address of a server as that address, or the port of a server as that port.
pub proof fn law_any_label_may_serve(metadata: Metadata, addr: Seq<char>, port: Seq<char>)
    ensures
        serves(metadata, addr, port) <==> exists|i: int|
            0 <= i < metadata.labels@.len() && {
                ||| (#[trigger] metadata.labels@[i]).key@ == "tami.moe/minecraft"@
                    && metadata.labels@[i].value@ == addr
                ||| metadata.labels@[i].key@ == "tami.moe/minecraft-port"@
                    && metadata.labels@[i].value@ == port
            },
{
    assert forall|i: int| 0 <= i < metadata.labels@.len() implies (label_serves(
        #[trigger] metadata.labels@[i],
        addr,
        port,
    ) <==> {
        ||| metadata.labels@[i].key@ == "tami.moe/minecraft"@ && metadata.labels@[i].value@ == addr
        ||| metadata.labels@[i].key@ == "tami.moe/minecraft-port"@ && metadata.labels@[i].value@
            == port
    }) by {}
}

/// A label that serves is enough, whichever of the labels it is.
pub proof fn law_one_label_is_enough(metadata: Metadata, at: int, addr: Seq<char>, port: Seq<char>)
    requires
        0 <= at < metadata.labels@.len(),
        (metadata.labels@[at].key@ == "tami.moe/minecraft"@ && metadata.labels@[at].value@ == addr)
            || (metadata.labels@[at].key@ == "tami.moe/minecraft-port"@
            && metadata.labels@[at].value@ == port),
    ensures
        serves(metadata, addr, port),
{
    assert(label_serves(metadata.labels@[at], addr, port));
}

/// More labels, or the same ones in another order, never make an object serve less: where each
/// label of one object is among those of another, the other serves what the one does.
pub proof fn law_more_labels_serve_more(
    less: Metadata,
    more: Metadata,
    addr: Seq<char>,
    port: Seq<char>,
)
    requires
        forall|i: int|
            0 <= i < less.labels@.len() ==> exists|j: int|
                0 <= j < more.labels@.len() && (#[trigger] more.labels@[j]).key@
                    == (#[trigger] less.labels@[i]).key@ && more.labels@[j].value@
                    == less.labels@[i].value@,
        serves(less, addr, port),
    ensures
        serves(more, addr, port),
{
    let i = choose|i: int|
        0 <= i < less.labels@.len() && label_serves(#[trigger] less.labels@[i], addr, port);
    let j = choose|j: int|
        0 <= j < more.labels@.len() && (#[trigger] more.labels@[j]).key@ == less.labels@[i].key@
            && more.labels@[j].value@ == less.labels@[i].value@;
    assert(label_serves(more.labels@[j], addr, port));
}

/// What `filter_label_value` answers, read off the labels.
pub proof fn law_filter_reads_all_labels<R: Resource>(
    object: R,
    addr: &str,
    port: &str,
    found: bool,
)
    requires
        call_ensures(filter_label_value::<R>, (&object, addr, port), found),
    ensures
        found <==> exists|i: int|
            0 <= i < object.described().labels@.len() && {
                ||| (#[trigger] object.described().labels@[i]).key@ == "tami.moe/minecraft"@
                    && object.described().labels@[i].value@ == addr@
                ||| object.described().labels@[i].key@ == "tami.moe/minecraft-port"@
                    && object.described().labels@[i].value@ == port@
            },
{
    law_any_label_may_serve(object.described(), addr@, port@);
}

/// The name that is found is that of the first listed deployment of which a label serves the
/// address or the port.
pub proof fn law_first_deployment_is_named<C>(
    cache: KubeCache<C>,
    addr: &str,
    port: &str,
    name: Option<String>,
    at: int,
)
    requires
        call_ensures(KubeCache::<C>::query_dep_addr, (&cache, addr, port), name),
        0 <= at < cache.deployments@.len(),
        serves(cache.deployments@[at].metadata, addr@, port@),
        forall|i: int|
            0 <= i < at ==> !serves((#[trigger] cache.deployments@[i]).metadata, addr@, port@),
    ensures
        match cache.deployments@[at].metadata.name {
            Some(own) => name matches Some(n) && n@ == own@,
            None => name is None,
        },
{
    law_first_server_is_found(cache.deployments@, at, addr@, port@);
}

/// The name that is found is that of the first listed service of which a label serves the address
/// or the port.
pub proof fn law_first_service_is_named<C>(
    cache: KubeCache<C>,
    addr: &str,
    port: &str,
    name: Option<String>,
    at: int,
)
    requires
        call_ensures(KubeCache::<C>::query_srv_addr, (&cache, addr, port), name),
        0 <= at < cache.services@.len(),
        serves(cache.services@[at].metadata, addr@, port@),
        forall|i: int|
            0 <= i < at ==> !serves((#[trigger] cache.services@[i]).metadata, addr@, port@),
    ensures
        match cache.services@[at].metadata.name {
            Some(own) => name matches Some(n) && n@ == own@,
            None => name is None,
        },
{
    law_first_server_is_found(cache.services@, at, addr@, port@);
}

} // verus!

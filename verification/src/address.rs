//! The address of a handshake, and the address that is looked up for it.
use vstd::prelude::*;

verus! {

/// `s` without the dots at its end.
pub open spec fn without_trailing_dots(s: Seq<char>) -> Seq<char>
    decreases s.len(),
{
    if s.len() > 0 && s.last() == '.' {
        without_trailing_dots(s.drop_last())
    } else {
        s
    }
}

/// `s` up to its first null character.
pub open spec fn before_null(s: Seq<char>) -> Seq<char>
    decreases s.len(),
{
    if s.len() == 0 || s[0] == '\0' {
        seq![]
    } else {
        seq![s[0]] + before_null(s.drop_first())
    }
}

/// The address that is looked up for the address `s` of a handshake.
pub open spec fn sanitized(s: Seq<char>) -> Seq<char> {
    before_null(without_trailing_dots(s))
}

proof fn lemma_without_trailing_dots(s: Seq<char>, n: int)
    requires
        0 <= n <= s.len(),
        n > 0 ==> s[n - 1] != '.',
        forall|i: int| n <= i < s.len() ==> s[i] == '.',
    ensures
        without_trailing_dots(s) == s.take(n),
    decreases s.len(),
{
    if s.len() > n {
        lemma_without_trailing_dots(s.drop_last(), n);
        assert(s.drop_last().take(n) =~= s.take(n));
    } else {
        assert(s.take(n) =~= s);
    }
}

proof fn lemma_before_null(s: Seq<char>, n: int)
    requires
        0 <= n <= s.len(),
        n < s.len() ==> s[n] == '\0',
        forall|i: int| 0 <= i < n ==> s[i] != '\0',
    ensures
        before_null(s) == s.take(n),
    decreases s.len(),
{
    if n > 0 {
        let tail = s.drop_first();
        assert forall|i: int| 0 <= i < n - 1 implies tail[i] != '\0' by {
            assert(tail[i] == s[i + 1]);
        }
        lemma_before_null(tail, n - 1);
        assert(s.take(n) =~= seq![s[0]] + tail.take(n - 1));
    } else {
        assert(s.take(n) =~= seq![]);
    }
}

/// `str` without the dots at its end.
pub fn trim_trailing_dots(str: &str) -> (trimmed: &str)
    ensures
        trimmed@ == without_trailing_dots(str@),
{
    let len: usize = str.unicode_len();
    let mut kept: usize = 0;
    let mut count: usize = 0;
    for c in chars: str.chars()
        invariant
            chars.seq() == str@,
            count == chars.index(),
            0 <= kept <= count,
            count <= len == str@.len(),
            kept > 0 ==> str@[kept - 1] != '.',
            forall|i: int| kept <= i < count ==> str@[i] == '.',
    {
        count = count + 1;
        if c != '.' {
            kept = count;
        }
    }
    proof {
        lemma_without_trailing_dots(str@, kept as int);
    }
    let trimmed = str.substring_char(0, kept);
    assert(trimmed@ =~= str@.take(kept as int));
    trimmed
}

/// `str` up to its first null character.
pub fn terminate_at_null(str: &str) -> (terminated: &str)
    ensures
        terminated@ == before_null(str@),
{
    let len: usize = str.unicode_len();
    let mut kept: usize = 0;
    let mut ended = false;
    for c in chars: str.chars()
        invariant
            chars.seq() == str@,
            kept <= chars.index() <= len == str@.len(),
            !ended ==> kept == chars.index(),
            ended ==> kept < len && str@[kept as int] == '\0',
            forall|i: int| 0 <= i < kept ==> str@[i] != '\0',
    {
        if c == '\0' {
            ended = true;
        } else if !ended {
            kept = kept + 1;
        }
    }
    proof {
        lemma_before_null(str@, kept as int);
    }
    let terminated = str.substring_char(0, kept);
    assert(terminated@ =~= str@.take(kept as int));
    terminated
}

/// The address to look up for the address of a handshake.
///
/// A client that joins by way of a SRV record of the DNS sends the address that the record
/// redirects to, with a trailing dot, in place of the one that was typed. A modded client ends the
/// address with a null character and sends data of its own after it.
pub fn sanitize_addr(addr: &str) -> (sane: &str)
    ensures
        sane@ == sanitized(addr@),
{
    terminate_at_null(trim_trailing_dots(addr))
}

proof fn lemma_without_trailing_dots_shape(s: Seq<char>)
    ensures
        without_trailing_dots(s).len() <= s.len(),
        without_trailing_dots(s) == s.take(without_trailing_dots(s).len() as int),
        without_trailing_dots(s).len() > 0 ==> without_trailing_dots(s).last() != '.',
        without_trailing_dots(without_trailing_dots(s)) == without_trailing_dots(s),
    decreases s.len(),
{
    if s.len() > 0 && s.last() == '.' {
        let rest = s.drop_last();
        lemma_without_trailing_dots_shape(rest);
        let n = without_trailing_dots(rest).len() as int;
        assert(rest.take(n) =~= s.take(n));
    } else {
        assert(s.take(s.len() as int) =~= s);
    }
}

proof fn lemma_before_null_shape(s: Seq<char>)
    ensures
        before_null(s).len() <= s.len(),
        before_null(s) == s.take(before_null(s).len() as int),
        !before_null(s).contains('\0'),
        !s.contains('\0') ==> before_null(s) == s,
    decreases s.len(),
{
    if s.len() == 0 || s[0] == '\0' {
        assert(s.take(0) =~= seq![]);
        if s.len() > 0 {
            assert(s.contains(s[0]));
        } else {
            assert(s =~= seq![]);
        }
    } else {
        let tail = s.drop_first();
        lemma_before_null_shape(tail);
        let n = before_null(tail).len() as int;
        assert(seq![s[0]] + tail.take(n) =~= s.take(n + 1));
        if !s.contains('\0') {
            assert forall|c: char| tail.contains(c) implies s.contains(c) by {
                let i = choose|i: int| 0 <= i < tail.len() && tail[i] == c;
                assert(s[i + 1] == c);
            }
            assert(seq![s[0]] + tail =~= s);
        }
    }
}

/// The address that is looked up is a beginning of the one that was sent, and holds no null
/// character.
pub proof fn law_sanitized_is_clean(s: Seq<char>)
    ensures
        sanitized(s).len() <= s.len(),
        sanitized(s) == s.take(sanitized(s).len() as int),
        !sanitized(s).contains('\0'),
{
    let trimmed = without_trailing_dots(s);
    lemma_without_trailing_dots_shape(s);
    lemma_before_null_shape(trimmed);
    let n = sanitized(s).len() as int;
    assert(s.take(trimmed.len() as int).take(n) =~= s.take(n));
}

/// Dots at the end of an address do not matter, whether they are taken away before or not.
pub proof fn law_trailing_dots_do_not_matter(s: Seq<char>)
    ensures
        sanitized(s.push('.')) == sanitized(s),
        sanitized(without_trailing_dots(s)) == sanitized(s),
{
    assert(s.push('.').drop_last() =~= s);
    lemma_without_trailing_dots_shape(s);
}

/// What follows the first null character of an address does not matter.
pub proof fn law_data_after_null_does_not_matter(s: Seq<char>, extra: Seq<char>)
    ensures
        sanitized(s.push('\0') + extra) == before_null(s),
    decreases extra.len(),
{
    let whole = s.push('\0') + extra;
    if extra.len() > 0 && extra.last() == '.' {
        assert(whole.drop_last() =~= s.push('\0') + extra.drop_last());
        assert(whole.last() == extra.last());
        law_data_after_null_does_not_matter(s, extra.drop_last());
    } else {
        if extra.len() > 0 {
            assert(whole.last() == extra.last());
        } else {
            assert(whole.last() == '\0');
        }
        lemma_before_null_cut(s, extra);
    }
}

proof fn lemma_before_null_cut(s: Seq<char>, extra: Seq<char>)
    ensures
        before_null(s.push('\0') + extra) == before_null(s),
    decreases s.len(),
{
    let whole = s.push('\0') + extra;
    if s.len() == 0 {
        assert(whole[0] == '\0');
    } else {
        assert(whole[0] == s[0]);
        assert(whole.drop_first() =~= s.drop_first().push('\0') + extra);
        lemma_before_null_cut(s.drop_first(), extra);
    }
}

/// An address without null characters is looked up without dots at its end, and looking up that
/// address comes to the same.
pub proof fn law_sanitized_is_stable(s: Seq<char>)
    requires
        !s.contains('\0'),
    ensures
        sanitized(s) == without_trailing_dots(s),
        sanitized(s).len() > 0 ==> sanitized(s).last() != '.',
        sanitized(sanitized(s)) == sanitized(s),
{
    let trimmed = without_trailing_dots(s);
    lemma_without_trailing_dots_shape(s);
    assert forall|c: char| trimmed.contains(c) implies s.contains(c) by {
        let i = choose|i: int| 0 <= i < trimmed.len() && trimmed[i] == c;
        assert(s[i] == trimmed[i]);
    }
    lemma_before_null_shape(trimmed);
}

/// Dots at the end are dropped, as many as there are, and nothing else is.
pub proof fn law_dots_are_cut(kept: Seq<char>, dots: nat)
    requires
        kept.len() > 0 ==> kept.last() != '.',
    ensures
        without_trailing_dots(kept + Seq::new(dots, |i: int| '.')) == kept,
{
    let whole = kept + Seq::new(dots, |i: int| '.');
    lemma_without_trailing_dots(whole, kept.len() as int);
    assert(whole.take(kept.len() as int) =~= kept);
}

/// An address without null characters is looked up as it is but for the dots at its end.
pub proof fn law_plain_address(kept: Seq<char>, dots: nat)
    requires
        kept.len() > 0 ==> kept.last() != '.',
        !kept.contains('\0'),
    ensures
        sanitized(kept + Seq::new(dots, |i: int| '.')) == kept,
{
    law_dots_are_cut(kept, dots);
    lemma_before_null_shape(kept);
}

/// An address with a null character is looked up as what comes before the first one, whatever comes
/// after it.
pub proof fn law_null_terminated_address(kept: Seq<char>, extra: Seq<char>)
    requires
        !kept.contains('\0'),
    ensures
        sanitized(kept.push('\0') + extra) == kept,
        before_null(kept.push('\0') + extra) == kept,
        before_null(kept) == kept,
{
    law_data_after_null_does_not_matter(kept, extra);
    lemma_before_null_cut(kept, extra);
    lemma_before_null_shape(kept);
}

/// What the three functions give back is what the laws speak of.
pub proof fn law_addresses_are_cut(str: &str, trimmed: &str, terminated: &str, sane: &str)
    requires
        call_ensures(trim_trailing_dots, (str,), trimmed),
        call_ensures(terminate_at_null, (str,), terminated),
        call_ensures(sanitize_addr, (str,), sane),
    ensures
        trimmed@ == without_trailing_dots(str@),
        terminated@ == before_null(str@),
        sane@ == sanitized(str@),
{
}

} // verus!

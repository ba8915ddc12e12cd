//! Header fields as the relay and the bridge handle them: a name, compared
//! without regard to ASCII case, and a value of raw bytes.

use crate::text::{names_match, read_length, parse_length, same_name};
use vstd::prelude::*;
use vstd::utf8::encode_utf8;

verus! {

/// One header field.
#[derive(Debug, Clone, PartialEq, Eq)]
pub struct Header {
    pub name: String,
    pub value: Vec<u8>,
}

/// A header field as mathematical values.
pub struct Field {
    pub name: Seq<char>,
    pub value: Seq<u8>,
}

impl View for Header {
    type V = Field;

    open spec fn view(&self) -> Field {
        Field { name: self.name@, value: self.value@ }
    }
}

/// The fields of a header list, in order.
pub open spec fn fields(headers: Seq<Header>) -> Seq<Field> {
    headers.map_values(|header: Header| header@)
}

/// The name `host`.
pub open spec fn host_name() -> Seq<char> {
    seq!['h', 'o', 's', 't']
}

/// The name `content-length`.
pub open spec fn content_length_name() -> Seq<char> {
    seq!['c', 'o', 'n', 't', 'e', 'n', 't', '-', 'l', 'e', 'n', 'g', 't', 'h']
}

/// The name `sec-websocket-key`.
pub open spec fn websocket_key_name() -> Seq<char> {
    seq!['s', 'e', 'c', '-', 'w', 'e', 'b', 's', 'o', 'c', 'k', 'e', 't', '-', 'k', 'e', 'y']
}

/// Whether some field of the list has the given name.
pub open spec fn has_name(list: Seq<Field>, name: Seq<char>) -> bool {
    exists|i: int| 0 <= i < list.len() && same_name(#[trigger] list[i].name, name)
}

/// The value of the first field with the given name, if there is one.
pub open spec fn first_value(list: Seq<Field>, name: Seq<char>) -> Option<Seq<u8>>
    decreases list.len(),
{
    if list.len() == 0 {
        None
    } else if same_name(list.first().name, name) {
        Some(list.first().value)
    } else {
        first_value(list.drop_first(), name)
    }
}

/// The list with its `host` fields made one: the first of them stays where
/// it is, under the name it came with, and carries `host`; the later ones
/// are dropped. All other fields, and their order, stay as they are, and a
/// list without a `host` field is unchanged.
pub open spec fn set_host(list: Seq<Field>, host: Seq<u8>) -> Seq<Field>
    decreases list.len(),
{
    if list.len() == 0 {
        list
    } else if same_name(list.first().name, host_name()) {
        seq![Field { name: list.first().name, value: host }] + without_name(list.drop_first(), host_name())
    } else {
        seq![list.first()] + set_host(list.drop_first(), host)
    }
}

/// The list without the fields of the given name, the others in their order.
pub open spec fn without_name(list: Seq<Field>, name: Seq<char>) -> Seq<Field> {
    list.filter(|field: Field| !same_name(field.name, name))
}

/// The fields of the given name, in their order.
pub open spec fn with_name(list: Seq<Field>, name: Seq<char>) -> Seq<Field> {
    list.filter(|field: Field| same_name(field.name, name))
}

/// The length that the list declares for the body: what the first
/// `content-length` field says, if it says a length.
pub open spec fn declared_length(list: Seq<Field>) -> Option<u64> {
    match first_value(list, content_length_name()) {
        Some(value) => parse_length(value),
        None => None,
    }
}

/// Whether the list has a field of the given name.
pub fn contains_name(headers: &Vec<Header>, name: &str) -> (found: bool)
    ensures
        found == has_name(fields(headers@), name@),
{
    let mut i: usize = 0;
    while i < headers.len()
        invariant
            i <= headers.len(),
            forall|k: int| 0 <= k < i ==> !same_name(#[trigger] fields(headers@)[k].name, name@),
        decreases headers.len() - i,
    {
        if names_match(headers[i].name.as_str(), name) {
            assert(same_name(fields(headers@)[i as int].name, name@));
            return true;
        }
        i = i + 1;
    }
    false
}

/// The length that the list declares for the body.
pub fn content_length(headers: &Vec<Header>) -> (length: Option<u64>)
    ensures
        length == declared_length(fields(headers@)),
{
    proof {
        reveal_strlit("content-length");
        assert("content-length"@ =~= content_length_name());
    }
    let ghost all = fields(headers@);
    let mut i: usize = 0;
    proof {
        assert(all.skip(0) =~= all);
    }
    while i < headers.len()
        invariant
            i <= headers.len(),
            all == fields(headers@),
            "content-length"@ == content_length_name(),
            first_value(all, content_length_name()) == first_value(
                all.skip(i as int),
                content_length_name(),
            ),
        decreases headers.len() - i,
    {
        proof {
            assert(all.skip(i as int).first() == all[i as int]);
            assert(all.skip(i as int).drop_first() =~= all.skip(i + 1));
        }
        if names_match(headers[i].name.as_str(), "content-length") {
            return read_length(headers[i].value.as_slice());
        }
        i = i + 1;
    }
    proof {
        assert(all.skip(i as int).len() == 0);
    }
    None
}

/// A list that begins with fields of other names is rewritten from the
/// first field on that may be a `host` field.
proof fn lemma_set_host_skips(list: Seq<Field>, host: Seq<u8>, upto: int)
    requires
        0 <= upto <= list.len(),
        forall|k: int| 0 <= k < upto ==> !same_name(#[trigger] list[k].name, host_name()),
    ensures
        set_host(list, host) == list.take(upto) + set_host(list.skip(upto), host),
    decreases upto,
{
    if upto == 0 {
        assert(list.skip(0) =~= list);
        assert(list.take(0) + list =~= list);
    } else {
        let rest = list.drop_first();
        assert(!same_name(list[0].name, host_name()));
        assert forall|k: int| 0 <= k < upto - 1 implies !same_name(#[trigger] rest[k].name, host_name()) by {
            assert(rest[k] == list[k + 1]);
        }
        lemma_set_host_skips(rest, host, upto - 1);
        assert(rest.skip(upto - 1) =~= list.skip(upto));
        assert(seq![list.first()] + (rest.take(upto - 1) + set_host(list.skip(upto), host)) =~= list.take(upto)
            + set_host(list.skip(upto), host));
    }
}

/// A copy of the list with its `host` fields made one that carries `host`:
/// the first stays in its place with the new value, the later ones are left
/// out, and every other field is copied as it is.
pub fn rewrite_host(headers: &Vec<Header>, host: &str) -> (out: Vec<Header>)
    ensures
        fields(out@) == set_host(fields(headers@), encode_utf8(host@)),
{
    proof {
        reveal_strlit("host");
        assert("host"@ =~= host_name());
    }
    let ghost all = fields(headers@);
    let ghost value = encode_utf8(host@);
    let mut out: Vec<Header> = Vec::new();
    let mut found = false;
    let ghost mut first: int = 0;
    let mut i: usize = 0;
    proof {
        reveal(Seq::filter);
        assert(fields(out@) =~= all.take(0));
    }
    while i < headers.len()
        invariant
            i <= headers.len(),
            "host"@ == host_name(),
            all == fields(headers@),
            value == encode_utf8(host@),
            !found ==> fields(out@) == all.take(i as int),
            !found ==> forall|k: int| 0 <= k < i ==> !same_name(#[trigger] all[k].name, host_name()),
            found ==> 0 <= first < i,
            found ==> same_name(all[first].name, host_name()),
            found ==> forall|k: int| 0 <= k < first ==> !same_name(#[trigger] all[k].name, host_name()),
            found ==> fields(out@) == all.take(first).push(Field { name: all[first].name, value: value })
                + without_name(all.subrange(first + 1, i as int), host_name()),
        decreases headers.len() - i,
    {
        let ghost before = fields(out@);
        let is_host = names_match(headers[i].name.as_str(), "host");
        proof {
            assert(all[i as int] == headers@[i as int]@);
            if found {
                reveal(Seq::filter);
                assert(all.subrange(first + 1, i + 1).drop_last() =~= all.subrange(first + 1, i as int));
                assert(all.subrange(first + 1, i + 1).last() == all[i as int]);
            }
        }
        if is_host {
            if !found {
                out.push(Header { name: headers[i].name.clone(), value: host.as_bytes_vec() });
                proof {
                    first = i as int;
                    reveal(Seq::filter);
                    assert(all.subrange(first + 1, i + 1) =~= Seq::<Field>::empty());
                    assert(fields(out@) =~= before.push(Field { name: all[first].name, value: value }));
                    assert(fields(out@) =~= all.take(first).push(Field { name: all[first].name, value: value })
                        + without_name(all.subrange(first + 1, i + 1), host_name()));
                }
                found = true;
            }
        } else {
            out.push(Header { name: headers[i].name.clone(), value: copy_bytes(&headers[i].value) });
            proof {
                assert(fields(out@) =~= before.push(all[i as int]));
                if found {
                    assert(fields(out@) =~= all.take(first).push(Field { name: all[first].name, value: value })
                        + without_name(all.subrange(first + 1, i + 1), host_name()));
                } else {
                    assert(fields(out@) =~= all.take(i + 1));
                }
            }
        }
        i = i + 1;
    }
    proof {
        if found {
            lemma_set_host_skips(all, value, first);
            let tail = all.skip(first);
            assert(tail.first() == all[first]);
            assert(tail.drop_first() =~= all.subrange(first + 1, i as int));
            assert(fields(out@) =~= all.take(first) + set_host(tail, value));
        } else {
            lemma_set_host_skips(all, value, i as int);
            assert(all.skip(i as int) =~= Seq::<Field>::empty());
            assert(all.take(i as int) =~= all);
            assert(all + Seq::<Field>::empty() =~= all);
        }
    }
    out
}

/// A copy of the list without the fields of the given name.
pub fn remove_name(headers: &Vec<Header>, name: &str) -> (out: Vec<Header>)
    ensures
        fields(out@) == without_name(fields(headers@), name@),
{
    let ghost all = fields(headers@);
    let mut out: Vec<Header> = Vec::new();
    let mut i: usize = 0;
    proof {
        reveal(Seq::filter);
        assert(all.take(0) =~= Seq::empty());
    }
    while i < headers.len()
        invariant
            i <= headers.len(),
            all == fields(headers@),
            fields(out@) == without_name(all.take(i as int), name@),
        decreases headers.len() - i,
    {
        proof {
            reveal(Seq::filter);
            assert(all.take(i + 1).drop_last() =~= all.take(i as int));
            assert(all.take(i + 1).last() == all[i as int]);
        }
        if !names_match(headers[i].name.as_str(), name) {
            let kept = Header { name: headers[i].name.clone(), value: copy_bytes(&headers[i].value) };
            out.push(kept);
            proof {
                assert(fields(out@) =~= without_name(all.take(i as int), name@).push(all[i as int]));
            }
        }
        i = i + 1;
    }
    proof {
        assert(all.take(i as int) =~= all);
    }
    out
}

/// A copy of a byte string.
pub fn copy_bytes(bytes: &Vec<u8>) -> (copy: Vec<u8>)
    ensures
        copy@ == bytes@,
{
    let mut copy: Vec<u8> = Vec::new();
    let mut i: usize = 0;
    while i < bytes.len()
        invariant
            i <= bytes.len(),
            copy@ == bytes@.take(i as int),
        decreases bytes.len() - i,
    {
        copy.push(bytes[i]);
        proof {
            assert(copy@ =~= bytes@.take(i + 1));
        }
        i = i + 1;
    }
    proof {
        assert(bytes@.take(i as int) =~= bytes@);
    }
    copy
}

/// Names that are the same as a third are the same as each other.
pub proof fn lemma_same_name_links(a: Seq<char>, b: Seq<char>, c: Seq<char>)
    ensures
        same_name(a, a),
        same_name(a, b) == same_name(b, a),
        same_name(a, b) && same_name(a, c) ==> same_name(b, c),
{
    if same_name(a, b) {
        assert(same_name(b, a));
    }
    if same_name(b, a) {
        assert(same_name(a, b));
    }
}

/// Filtering splits off the first field.
proof fn lemma_filter_first(list: Seq<Field>, keep: spec_fn(Field) -> bool)
    requires
        list.len() > 0,
    ensures
        list.filter(keep) == if keep(list.first()) {
            seq![list.first()] + list.drop_first().filter(keep)
        } else {
            list.drop_first().filter(keep)
        },
{
    let head = seq![list.first()];
    assert(list =~= head + list.drop_first());
    Seq::filter_distributes_over_add(head, list.drop_first(), keep);
    reveal_with_fuel(Seq::filter, 2);
    assert(head.drop_last() =~= Seq::<Field>::empty());
    assert(head.last() == list.first());
    if keep(list.first()) {
        assert(head.filter(keep) =~= head);
    } else {
        assert(head.filter(keep) =~= Seq::<Field>::empty());
        assert(head.filter(keep) + list.drop_first().filter(keep) =~= list.drop_first().filter(keep));
    }
}

/// Filtering twice, the second time for less, is filtering once for the
/// less.
pub proof fn lemma_filter_narrows(list: Seq<Field>, wide: spec_fn(Field) -> bool, narrow: spec_fn(Field) -> bool)
    requires
        forall|f: Field| #[trigger] narrow(f) ==> wide(f),
    ensures
        list.filter(wide).filter(narrow) == list.filter(narrow),
    decreases list.len(),
{
    if list.len() > 0 {
        lemma_filter_first(list, wide);
        lemma_filter_first(list, narrow);
        lemma_filter_narrows(list.drop_first(), wide, narrow);
        if wide(list.first()) {
            let kept = seq![list.first()] + list.drop_first().filter(wide);
            lemma_filter_first(kept, narrow);
            assert(kept.drop_first() =~= list.drop_first().filter(wide));
        }
    } else {
        reveal(Seq::filter);
    }
}

/// Filtering for what an earlier filter has taken out leaves nothing.
proof fn lemma_filter_misses(list: Seq<Field>, first: spec_fn(Field) -> bool, second: spec_fn(Field) -> bool)
    requires
        forall|f: Field| #[trigger] first(f) ==> !second(f),
    ensures
        list.filter(first).filter(second) == Seq::<Field>::empty(),
    decreases list.len(),
{
    if list.len() > 0 {
        lemma_filter_first(list, first);
        lemma_filter_misses(list.drop_first(), first, second);
        if first(list.first()) {
            let kept = seq![list.first()] + list.drop_first().filter(first);
            lemma_filter_first(kept, second);
            assert(kept.drop_first() =~= list.drop_first().filter(first));
        }
    } else {
        reveal(Seq::filter);
    }
}

/// A list without a field of some name has no field to show for it.
pub proof fn lemma_with_name_absent(list: Seq<Field>, name: Seq<char>)
    requires
        !has_name(list, name),
    ensures
        with_name(list, name) == Seq::<Field>::empty(),
    decreases list.len(),
{
    reveal(Seq::filter);
    if list.len() > 0 {
        let head = list.drop_last();
        assert(!same_name(list[list.len() - 1].name, name));
        assert forall|i: int| 0 <= i < head.len() implies !same_name(#[trigger] head[i].name, name) by {
            assert(!same_name(list[i].name, name));
        }
        lemma_with_name_absent(head, name);
    }
}

/// Rewriting the host leaves the fields of all other names as they came,
/// none lost, none added, in their order.
pub proof fn lemma_set_host_keeps_others(list: Seq<Field>, host: Seq<u8>)
    ensures
        without_name(set_host(list, host), host_name()) == without_name(list, host_name()),
    decreases list.len(),
{
    let other = |field: Field| !same_name(field.name, host_name());
    if list.len() > 0 {
        let rest = list.drop_first();
        lemma_filter_first(list, other);
        if same_name(list.first().name, host_name()) {
            let put = Field { name: list.first().name, value: host };
            let out = seq![put] + without_name(rest, host_name());
            lemma_filter_first(out, other);
            assert(out.drop_first() =~= without_name(rest, host_name()));
            lemma_filter_narrows(rest, other, other);
        } else {
            lemma_set_host_keeps_others(rest, host);
            let out = seq![list.first()] + set_host(rest, host);
            lemma_filter_first(out, other);
            assert(out.drop_first() =~= set_host(rest, host));
        }
    }
}

/// Rewriting the host leaves exactly one `host` field, carrying the new
/// value, where the list had any, and leaves a list without one as it is.
pub proof fn lemma_set_host_once(list: Seq<Field>, host: Seq<u8>)
    ensures
        has_name(list, host_name()) ==> with_name(set_host(list, host), host_name()).len() == 1 && with_name(
            set_host(list, host),
            host_name(),
        )[0].value == host,
        !has_name(list, host_name()) ==> set_host(list, host) == list,
    decreases list.len(),
{
    let is_host = |field: Field| same_name(field.name, host_name());
    let other = |field: Field| !same_name(field.name, host_name());
    if list.len() > 0 {
        let rest = list.drop_first();
        if same_name(list.first().name, host_name()) {
            assert(same_name(list[0].name, host_name()));
            let put = Field { name: list.first().name, value: host };
            let out = seq![put] + without_name(rest, host_name());
            lemma_filter_first(out, is_host);
            assert(out.drop_first() =~= without_name(rest, host_name()));
            lemma_filter_misses(rest, other, is_host);
            assert(with_name(out, host_name()) =~= seq![put]);
        } else {
            lemma_set_host_once(rest, host);
            let out = seq![list.first()] + set_host(rest, host);
            lemma_filter_first(out, is_host);
            assert(out.drop_first() =~= set_host(rest, host));
            if has_name(list, host_name()) {
                let i = choose|i: int| 0 <= i < list.len() && same_name(#[trigger] list[i].name, host_name());
                assert(same_name(rest[i - 1].name, host_name()));
            }
            if has_name(rest, host_name()) {
                let i = choose|i: int| 0 <= i < rest.len() && same_name(#[trigger] rest[i].name, host_name());
                assert(same_name(list[i + 1].name, host_name()));
            } else {
                assert(seq![list.first()] + rest =~= list);
            }
        }
    }
}

/// Rewriting the host leaves the fields of any other name exactly as the
/// list had them.
pub proof fn lemma_set_host_keeps_name(list: Seq<Field>, host: Seq<u8>, name: Seq<char>)
    requires
        !same_name(name, host_name()),
    ensures
        with_name(set_host(list, host), name) == with_name(list, name),
{
    let other = |field: Field| !same_name(field.name, host_name());
    let named = |field: Field| same_name(field.name, name);
    assert forall|f: Field| #[trigger] named(f) implies other(f) by {
        lemma_same_name_links(f.name, name, host_name());
    }
    lemma_set_host_keeps_others(list, host);
    lemma_filter_narrows(set_host(list, host), other, named);
    lemma_filter_narrows(list, other, named);
}

} // verus!

use crate::text::{bytes_of, text_pairs};
use vstd::prelude::*;

verus! {

/// A byte with an upper-case ASCII letter made lower-case.
pub open spec fn lower(b: u8) -> u8 {
    if 0x41 <= b <= 0x5a {
        (b + 0x20) as u8
    } else {
        b
    }
}

/// A header name as it is compared: its bytes, ASCII letters in lower case.
pub open spec fn folded(name: Seq<char>) -> Seq<u8> {
    bytes_of(name).map_values(|b: u8| lower(b))
}

/// Header names are the same when they differ in the case of ASCII letters
/// only.
pub open spec fn same_name(a: Seq<char>, b: Seq<char>) -> bool {
    folded(a) == folded(b)
}

/// True when entry `i` is the first header with the given name.
pub open spec fn is_first_named(headers: Seq<(Seq<char>, Seq<char>)>, name: Seq<char>, i: int) -> bool {
    &&& 0 <= i < headers.len()
    &&& same_name(headers[i].0, name)
    &&& forall|j: int| 0 <= j < i ==> !same_name((#[trigger] headers[j]).0, name)
}

/// True when a header with the given name is set.
pub open spec fn has_header(headers: Seq<(Seq<char>, Seq<char>)>, name: Seq<char>) -> bool {
    exists|i: int| 0 <= i < headers.len() && same_name((#[trigger] headers[i]).0, name)
}

/// The place of the first header with the given name.
pub open spec fn header_index(headers: Seq<(Seq<char>, Seq<char>)>, name: Seq<char>) -> int {
    choose|i: int| is_first_named(headers, name, i)
}

/// The value of the header with the given name, if it is set.
pub open spec fn header_value(headers: Seq<(Seq<char>, Seq<char>)>, name: Seq<char>) -> Option<
    Seq<char>,
> {
    if has_header(headers, name) {
        Some(headers[header_index(headers, name)].1)
    } else {
        None
    }
}

/// The headers after one is set: a header of the same name is replaced where
/// it stands, name and value; a new one goes to the end.
pub open spec fn put_header(
    headers: Seq<(Seq<char>, Seq<char>)>,
    name: Seq<char>,
    value: Seq<char>,
) -> Seq<(Seq<char>, Seq<char>)> {
    if has_header(headers, name) {
        headers.update(header_index(headers, name), (name, value))
    } else {
        headers.push((name, value))
    }
}

/// True when no two headers have the same name.
pub open spec fn distinct_names(headers: Seq<(Seq<char>, Seq<char>)>) -> bool {
    forall|i: int, j: int|
        0 <= i < j < headers.len() ==> !same_name(
            (#[trigger] headers[i]).0,
            (#[trigger] headers[j]).0,
        )
}

/// The first header of a name is the one that `header_index` gives.
pub proof fn lemma_first_named(headers: Seq<(Seq<char>, Seq<char>)>, name: Seq<char>, i: int)
    requires
        is_first_named(headers, name, i),
    ensures
        has_header(headers, name),
        header_index(headers, name) == i,
{
    let chosen = header_index(headers, name);
    assert(is_first_named(headers, name, chosen));
    if chosen < i {
        assert(!same_name(headers[chosen].0, name));
    }
    if i < chosen {
        assert(!same_name(headers[i].0, name));
    }
}

/// Where a header of the name is set, there is a first one.
pub proof fn lemma_has_first(headers: Seq<(Seq<char>, Seq<char>)>, name: Seq<char>)
    requires
        has_header(headers, name),
    ensures
        is_first_named(headers, name, header_index(headers, name)),
{
    let some = choose|i: int| 0 <= i < headers.len() && same_name((#[trigger] headers[i]).0, name);
    lemma_first_before(headers, name, some);
}

/// Among the entries up to a match there is a first match.
proof fn lemma_first_before(headers: Seq<(Seq<char>, Seq<char>)>, name: Seq<char>, at: int)
    requires
        0 <= at < headers.len(),
        same_name(headers[at].0, name),
    ensures
        exists|i: int| is_first_named(headers, name, i),
    decreases at,
{
    if forall|j: int| 0 <= j < at ==> !same_name((#[trigger] headers[j]).0, name) {
        assert(is_first_named(headers, name, at));
    } else {
        let j = choose|j: int| 0 <= j < at && same_name((#[trigger] headers[j]).0, name);
        lemma_first_before(headers, name, j);
    }
}

/// Setting a header keeps the names apart.
pub proof fn lemma_put_header_distinct(
    headers: Seq<(Seq<char>, Seq<char>)>,
    name: Seq<char>,
    value: Seq<char>,
)
    requires
        distinct_names(headers),
    ensures
        distinct_names(put_header(headers, name, value)),
{
    let after = put_header(headers, name, value);
    if has_header(headers, name) {
        lemma_has_first(headers, name);
        let at = header_index(headers, name);
        assert forall|i: int, j: int| 0 <= i < j < after.len() implies !same_name(
            (#[trigger] after[i]).0,
            (#[trigger] after[j]).0,
        ) by {
            assert(!same_name(headers[i].0, headers[j].0));
        }
    } else {
        assert forall|i: int, j: int| 0 <= i < j < after.len() implies !same_name(
            (#[trigger] after[i]).0,
            (#[trigger] after[j]).0,
        ) by {
            if j < headers.len() {
                assert(!same_name(headers[i].0, headers[j].0));
            } else {
                assert(!same_name(headers[i].0, name));
            }
        }
    }
}

/// Last write wins: after a header is set, its name has the new value, and
/// every other name has the value that it had.
pub proof fn lemma_put_header_value(
    headers: Seq<(Seq<char>, Seq<char>)>,
    name: Seq<char>,
    value: Seq<char>,
    other: Seq<char>,
)
    ensures
        header_value(put_header(headers, name, value), other) == if same_name(name, other) {
            Some(value)
        } else {
            header_value(headers, other)
        },
{
    let after = put_header(headers, name, value);
    if has_header(headers, name) {
        lemma_has_first(headers, name);
        let at = header_index(headers, name);
        if same_name(name, other) {
            assert(is_first_named(after, other, at)) by {
                assert forall|j: int| 0 <= j < at implies !same_name(
                    (#[trigger] after[j]).0,
                    other,
                ) by {
                    assert(!same_name(headers[j].0, name));
                }
            }
            lemma_first_named(after, other, at);
        } else if has_header(headers, other) {
            lemma_has_first(headers, other);
            let there = header_index(headers, other);
            assert(is_first_named(after, other, there)) by {
                assert forall|j: int| 0 <= j < there implies !same_name(
                    (#[trigger] after[j]).0,
                    other,
                ) by {
                    assert(!same_name(headers[j].0, other));
                }
            }
            lemma_first_named(after, other, there);
        } else {
            assert forall|j: int| 0 <= j < after.len() implies !same_name(
                (#[trigger] after[j]).0,
                other,
            ) by {
                assert(!same_name(headers[j].0, other));
            }
        }
    } else {
        let end = headers.len() as int;
        if same_name(name, other) {
            assert(is_first_named(after, other, end)) by {
                assert forall|j: int| 0 <= j < end implies !same_name(
                    (#[trigger] after[j]).0,
                    other,
                ) by {
                    assert(!same_name(headers[j].0, name));
                }
            }
            lemma_first_named(after, other, end);
        } else if has_header(headers, other) {
            lemma_has_first(headers, other);
            let there = header_index(headers, other);
            assert(is_first_named(after, other, there)) by {
                assert forall|j: int| 0 <= j < there implies !same_name(
                    (#[trigger] after[j]).0,
                    other,
                ) by {
                    assert(!same_name(headers[j].0, other));
                }
            }
            lemma_first_named(after, other, there);
        } else {
            assert forall|j: int| 0 <= j < after.len() implies !same_name(
                (#[trigger] after[j]).0,
                other,
            ) by {
                if j < end {
                    assert(!same_name(headers[j].0, other));
                }
            }
        }
    }
}

/// A byte with an upper-case ASCII letter made lower-case.
fn lower_byte(b: u8) -> (l: u8)
    ensures
        l == lower(b),
{
    if 0x41 <= b && b <= 0x5a {
        b + 0x20
    } else {
        b
    }
}

/// Whether two header names are the same.
pub fn names_match(a: &str, b: &str) -> (same: bool)
    ensures
        same == same_name(a@, b@),
{
    let x: &[u8] = a.as_bytes();
    let y: &[u8] = b.as_bytes();
    if x.len() != y.len() {
        assert(folded(a@).len() != folded(b@).len());
        return false;
    }
    let mut i: usize = 0;
    while i < x.len()
        invariant
            i <= x@.len(),
            x@.len() == y@.len(),
            x@ == bytes_of(a@),
            y@ == bytes_of(b@),
            forall|k: int| 0 <= k < i ==> lower(x@[k]) == lower(y@[k]),
        decreases x@.len() - i,
    {
        if lower_byte(x[i]) != lower_byte(y[i]) {
            assert(folded(a@)[i as int] != folded(b@)[i as int]);
            return false;
        }
        i = i + 1;
    }
    assert(folded(a@) =~= folded(b@));
    true
}

/// The place of the first header with the given name, if there is one.
pub fn find_header(headers: &Vec<(String, String)>, name: &str) -> (at: Option<usize>)
    ensures
        match at {
            Some(i) => is_first_named(text_pairs(headers@), name@, i as int),
            None => !has_header(text_pairs(headers@), name@),
        },
{
    let mut i: usize = 0;
    while i < headers.len()
        invariant
            i <= headers@.len(),
            forall|j: int| 0 <= j < i ==> !same_name((#[trigger] text_pairs(headers@)[j]).0, name@),
        decreases headers@.len() - i,
    {
        if names_match(headers[i].0.as_str(), name) {
            return Some(i);
        }
        i = i + 1;
    }
    None
}

/// Sets a header: one of the same name is replaced, a new one is added.
pub fn set_in(headers: &mut Vec<(String, String)>, name: String, value: String)
    ensures
        text_pairs(final(headers)@) == put_header(text_pairs(old(headers)@), name@, value@),
{
    let ghost before: Seq<(Seq<char>, Seq<char>)> = text_pairs(headers@);
    match find_header(headers, name.as_str()) {
        Some(i) => {
            proof {
                lemma_first_named(before, name@, i as int);
            }
            headers.set(i, (name, value));
            assert(text_pairs(headers@) =~= before.update(i as int, (name@, value@)));
        },
        None => {
            headers.push((name, value));
            assert(text_pairs(headers@) =~= before.push((name@, value@)));
        },
    }
}

} // verus!

//! Identifiers and defaults of newly created tasks and artifacts: short
//! random ids derived from a version-4 UUID, and the names and kinds a
//! record gets when none is given.

use crate::text::{chars_of, concat2, string_of_chars};
use vstd::prelude::*;

verus! {

/// A lowercase hexadecimal digit.
pub open spec fn is_lower_hex(c: char) -> bool {
    ('0' <= c && c <= '9') || ('a' <= c && c <= 'f')
}

/// The text of a hyphenated lowercase version-4 UUID:
/// `xxxxxxxx-xxxx-4xxx-xxxx-xxxxxxxxxxxx`.
pub open spec fn uuid_v4_text(s: Seq<char>) -> bool {
    &&& s.len() == 36
    &&& forall|i: int|
        0 <= i < 36 ==> if i == 8 || i == 13 || i == 18 || i == 23 {
            s[i] == '-'
        } else {
            is_lower_hex(#[trigger] s[i])
        }
    &&& s[14] == '4'
}

/// `uuid::Uuid::new_v4().to_string()`: a fresh random UUID, written
/// hyphenated in lowercase hexadecimal with the version digit 4 (the
/// crate's `Display` writes the hyphenated lowercase form, and `new_v4`
/// sets the version bits). Which UUID comes out is not stated.
#[verifier::external_body]
fn new_uuid_v4_text() -> (r: String)
    ensures
        uuid_v4_text(r@),
{
    uuid::Uuid::new_v4().to_string()
}

/// `s` with every `c` removed.
pub open spec fn without_char(s: Seq<char>, c: char) -> Seq<char>
    decreases s.len(),
{
    if s.len() == 0 {
        s
    } else if s.last() == c {
        without_char(s.drop_last(), c)
    } else {
        without_char(s.drop_last(), c).push(s.last())
    }
}

/// `prefix` followed by the first 12 characters of `uuid` without its
/// hyphens.
pub open spec fn short_id_spec(prefix: Seq<char>, uuid: Seq<char>) -> Seq<char> {
    prefix + without_char(uuid, '-').take(12)
}

proof fn lemma_without_char_prefix(s: Seq<char>, c: char, k: int)
    requires
        0 <= k <= s.len(),
    ensures
        without_char(s.take(k), c).len() <= without_char(s, c).len(),
        without_char(s, c).take(without_char(s.take(k), c).len() as int) == without_char(
            s.take(k),
            c,
        ),
    decreases s.len() - k,
{
    if k < s.len() {
        lemma_without_char_prefix(s, c, k + 1);
        assert(s.take(k + 1).drop_last() =~= s.take(k));
        let a = without_char(s.take(k), c);
        let b = without_char(s.take(k + 1), c);
        let w = without_char(s, c);
        assert(w.take(a.len() as int) =~= b.take(a.len() as int));
    } else {
        assert(s.take(k) =~= s);
    }
}

proof fn lemma_uuid_hex_count(s: Seq<char>, k: int)
    requires
        uuid_v4_text(s),
        0 <= k <= 36,
    ensures
        without_char(s.take(k), '-').len() == k - (if k > 23 {
            4int
        } else if k > 18 {
            3int
        } else if k > 13 {
            2int
        } else if k > 8 {
            1int
        } else {
            0int
        }),
        forall|j: int|
            0 <= j < without_char(s.take(k), '-').len() ==> is_lower_hex(
                #[trigger] without_char(s.take(k), '-')[j],
            ),
    decreases k,
{
    if k > 0 {
        lemma_uuid_hex_count(s, k - 1);
        assert(s.take(k).drop_last() =~= s.take(k - 1));
        assert(s.take(k).last() == s[k - 1]);
    }
}

/// The identifier made of `prefix` and the first 12 hexadecimal digits of
/// a UUID's text.
pub fn short_id(prefix: &str, uuid: &str) -> (r: String)
    requires
        without_char(uuid@, '-').len() >= 12,
    ensures
        r@ == short_id_spec(prefix@, uuid@),
{
    let c = chars_of(uuid);
    let mut digits: Vec<char> = Vec::new();
    let mut i: usize = 0;
    while i < c.len() && digits.len() < 12
        invariant
            c@ == uuid@,
            i <= c.len(),
            digits@ == without_char(c@.take(i as int), '-'),
            digits.len() <= 12,
        decreases c.len() - i,
    {
        assert(c@.take(i + 1).drop_last() =~= c@.take(i as int));
        if c[i] != '-' {
            digits.push(c[i]);
        }
        i += 1;
    }
    proof {
        lemma_without_char_prefix(c@, '-', i as int);
        if i >= c.len() {
            assert(c@.take(i as int) =~= c@);
        }
    }
    concat2(prefix, string_of_chars(&digits).as_str())
}

/// A fresh identifier: `prefix` and 12 random lowercase hexadecimal digits.
pub fn new_short_id(prefix: &str) -> (r: String)
    ensures
        exists|u: Seq<char>| uuid_v4_text(u) && r@ == short_id_spec(prefix@, u),
        r@.len() == prefix@.len() + 12,
        r@.take(prefix@.len() as int) == prefix@,
        forall|j: int| prefix@.len() <= j < r@.len() ==> is_lower_hex(#[trigger] r@[j]),
{
    let u = new_uuid_v4_text();
    proof {
        lemma_uuid_hex_count(u@, 36);
        assert(u@.take(36) =~= u@);
    }
    let r = short_id(prefix, u.as_str());
    proof {
        let w = without_char(u@, '-');
        assert forall|j: int| prefix@.len() <= j < r@.len() implies is_lower_hex(#[trigger] r@[j]) by {
            assert(r@[j] == w[j - prefix@.len()]);
        }
        assert(r@.take(prefix@.len() as int) =~= prefix@);
    }
    r
}

/// A new task's identifier: `task-` and 12 random hexadecimal digits.
pub fn new_task_id() -> (r: String)
    ensures
        exists|u: Seq<char>| uuid_v4_text(u) && r@ == short_id_spec("task-"@, u),
{
    new_short_id("task-")
}

/// A new artifact's identifier: `art-` and 12 random hexadecimal digits.
pub fn new_artifact_id() -> (r: String)
    ensures
        exists|u: Seq<char>| uuid_v4_text(u) && r@ == short_id_spec("art-"@, u),
{
    new_short_id("art-")
}

/// A task's name: the given one, or its identifier when none is given.
pub fn task_name_or_id(task_name: &str, id: &str) -> (r: String)
    ensures
        r@ == if task_name@.len() == 0 {
            id@
        } else {
            task_name@
        },
{
    if chars_of(task_name).len() == 0 {
        id.to_owned()
    } else {
        task_name.to_owned()
    }
}

/// An artifact's label: the given one; else the name of its directory;
/// else its identifier.
pub fn artifact_label(label: &str, dir_name: Option<&str>, id: &str) -> (r: String)
    ensures
        r@ == if label@.len() > 0 {
            label@
        } else {
            match dir_name {
                Some(n) => n@,
                None => id@,
            }
        },
{
    if chars_of(label).len() > 0 {
        label.to_owned()
    } else {
        match dir_name {
            Some(n) => n.to_owned(),
            None => id.to_owned(),
        }
    }
}

/// An artifact's kind: the given one, `3dtiles` when empty.
pub fn artifact_kind(kind: &str) -> (r: String)
    ensures
        r@ == if kind@.len() == 0 {
            "3dtiles"@
        } else {
            kind@
        },
{
    if chars_of(kind).len() == 0 {
        "3dtiles".to_owned()
    } else {
        kind.to_owned()
    }
}

} // verus!

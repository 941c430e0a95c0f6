//! What the terminal front ends compute around their screens: the labels
//! of list items, the addresses they talk to, the names they look up and
//! the files they write.

use vstd::prelude::*;
use crate::text::{decimal, debug_quote, debug_quoted, push_char, spec_to_lowercase, str_eq, to_lowercase, u64_to_string};

verus! {

/// `n` spaces.
pub open spec fn spaces(n: nat) -> Seq<char> {
    Seq::new(n, |i: int| ' ')
}

/// The label of item `i` (from 0) of a list of `count` items: its number
/// from 1, padded on the left with spaces to the width of the number
/// `count + 1`, a space and the item's text.
pub open spec fn index_label_spec(i: nat, count: nat, label: Seq<char>) -> Seq<char> {
    let number = decimal(i + 1);
    spaces((decimal(count + 1).len() - number.len()) as nat) + number + " "@ + label
}

proof fn lemma_decimal_len_mono(a: nat, b: nat)
    requires
        a <= b,
    ensures
        decimal(a).len() <= decimal(b).len(),
    decreases b,
{
    if b >= 10 && a >= 10 {
        lemma_decimal_len_mono(a / 10, b / 10);
    }
    if a >= 10 && b >= 10 {
        assert(decimal(a).len() == decimal(a / 10).len() + 1);
        assert(decimal(b).len() == decimal(b / 10).len() + 1);
    } else if b >= 10 {
        assert(decimal(b).len() == decimal(b / 10).len() + 1);
        lemma_decimal_len_pos(b / 10);
    }
}

proof fn lemma_decimal_len_pos(n: nat)
    ensures
        decimal(n).len() >= 1,
    decreases n,
{
    if n >= 10 {
        lemma_decimal_len_pos(n / 10);
    }
}

/// The label of item `i` of a list of `count` items.
pub fn index_label(i: usize, count: usize, label: &str) -> (r: String)
    requires
        i < count,
        count < u64::MAX,
    ensures
        r@ == index_label_spec(i as nat, count as nat, label@),
{
    let number = u64_to_string((i + 1) as u64);
    let width = u64_to_string(count as u64 + 1);
    proof {
        lemma_decimal_len_mono((i + 1) as nat, (count + 1) as nat);
    }
    let pad = width.unicode_len() - number.unicode_len();
    let mut r = String::new();
    let mut k: usize = 0;
    while k < pad
        invariant
            k <= pad,
            r@ == spaces(k as nat),
        decreases pad - k,
    {
        push_char(&mut r, ' ');
        k = k + 1;
        assert(r@ =~= spaces(k as nat));
    }
    r.append(number.as_str());
    r.append(" ");
    r.append(label);
    r
}

/// The labels of a list line up: every item's number, padded, takes the
/// width of the number `count + 1`, so each label is that wide before its
/// space and text.
pub proof fn law_labels_aligned(i: nat, count: nat, label: Seq<char>)
    requires
        i < count,
    ensures
        index_label_spec(i, count, label).len() == decimal(count + 1).len() + 1 + label.len(),
        index_label_spec(i, count, label)[decimal(count + 1).len() as int] == ' ',
{
    lemma_decimal_len_mono(i + 1, count + 1);
    let number = decimal(i + 1);
    let pad = spaces((decimal(count + 1).len() - number.len()) as nat);
    assert(index_label_spec(i, count, label) == pad + number + " "@ + label);
    reveal_strlit(" ");
    assert((pad + number + " "@ + label)[decimal(count + 1).len() as int] == " "@[0]);
}

/// The text without the `/` characters at its end.
pub open spec fn trimmed_url(s: Seq<char>) -> Seq<char>
    decreases s.len(),
{
    if s.len() > 0 && s.last() == '/' {
        trimmed_url(s.drop_last())
    } else {
        s
    }
}

/// The address without its trailing `/` characters.
pub fn trim_trailing_slashes(url: &str) -> (r: String)
    ensures
        r@ == trimmed_url(url@),
{
    let mut n = url.unicode_len();
    assert(url@.take(n as int) =~= url@);
    while n > 0 && url.get_char(n - 1) == '/'
        invariant
            n <= url@.len(),
            trimmed_url(url@) == trimmed_url(url@.take(n as int)),
        decreases n,
    {
        assert(url@.take(n as int).drop_last() =~= url@.take(n - 1));
        n = n - 1;
    }
    let r = url.substring_char(0, n);
    assert(r@ =~= url@.take(n as int));
    r.to_string()
}

/// The name a qualifier choice stands for: 1 is suspicious, 2 benign,
/// anything else none.
pub open spec fn qualifier_name_spec(code: i64) -> Seq<char> {
    if code == 1 {
        "Suspicious"@
    } else if code == 2 {
        "Benign"@
    } else {
        "None"@
    }
}

/// The name a qualifier choice stands for.
pub fn qualifier_name(code: i64) -> (r: &'static str)
    ensures
        r@ == qualifier_name_spec(code),
{
    if code == 1 {
        "Suspicious"
    } else if code == 2 {
        "Benign"
    } else {
        "None"
    }
}

/// The path of a file written next to others in a directory: the
/// directory, a `/` unless it already ends with one, a time stamp and a
/// suffix.
pub open spec fn file_path_spec(dir: Seq<char>, stamp: Seq<char>, suffix: Seq<char>) -> Seq<char> {
    dir + (if dir.len() > 0 && dir.last() == '/' { Seq::empty() } else { "/"@ }) + stamp + suffix
}

/// The path of a file written in a directory under a time stamp.
pub fn stamped_file_path(dir: &str, stamp: &str, suffix: &str) -> (r: String)
    ensures
        r@ == file_path_spec(dir@, stamp@, suffix@),
{
    let mut r = dir.to_string();
    let n = dir.unicode_len();
    if !(n > 0 && dir.get_char(n - 1) == '/') {
        r.append("/");
    }
    r.append(stamp);
    r.append(suffix);
    r
}

/// The message after the benign rules were written to a file, or failed
/// to be (with the error's text).
pub open spec fn rules_saved_message_spec(path: Seq<char>, error: Option<Seq<char>>) -> Seq<char> {
    match error {
        None => "The benign rules have been saved to \n\n"@ + debug_quoted(path) + "."@,
        Some(e) => "An error occurs while writing benign rules to "@ + debug_quoted(path) + ".\nError: "@ + e,
    }
}

/// The message after the benign rules were written to a file, or failed
/// to be.
pub fn rules_saved_message(path: &str, error: Option<&str>) -> (r: String)
    ensures
        r@ == rules_saved_message_spec(path@, match error { Some(e) => Some(e@), None => None }),
{
    let q = debug_quote(path);
    match error {
        None => {
            let mut r = String::from_str("The benign rules have been saved to \n\n");
            r.append(q.as_str());
            r.append(".");
            r
        },
        Some(e) => {
            let mut r = String::from_str("An error occurs while writing benign rules to ");
            r.append(q.as_str());
            r.append(".\nError: ");
            r.append(e);
            r
        },
    }
}

/// The first of the first `k` entries whose name, in lowercase, is
/// `name`.
pub open spec fn first_named(entries: Seq<(i64, Seq<char>)>, name: Seq<char>, k: int) -> Option<i64>
    decreases k,
{
    if k <= 0 {
        None
    } else {
        match first_named(entries, name, k - 1) {
            Some(id) => Some(id),
            None => if spec_to_lowercase(entries[k - 1].1) == name { Some(entries[k - 1].0) } else { None },
        }
    }
}

/// Entries as plain values.
pub open spec fn entries_view(entries: Seq<(i64, String)>) -> Seq<(i64, Seq<char>)> {
    entries.map_values(|e: (i64, String)| (e.0, e.1@))
}

proof fn lemma_first_named_stays(entries: Seq<(i64, Seq<char>)>, name: Seq<char>, a: int, b: int)
    requires
        0 <= a <= b,
        first_named(entries, name, a) is Some,
    ensures
        first_named(entries, name, b) == first_named(entries, name, a),
    decreases b - a,
{
    if a < b {
        lemma_first_named_stays(entries, name, a, b - 1);
    }
}

/// The id of the first entry, in the order given (the order a table is
/// walked in), whose name is `name` once lowercased.
pub fn id_named(entries: &Vec<(i64, String)>, name: &str) -> (r: Option<i64>)
    ensures
        r == first_named(entries_view(entries@), name@, entries@.len() as int),
{
    let ghost es = entries_view(entries@);
    let mut i: usize = 0;
    while i < entries.len()
        invariant
            i <= entries@.len(),
            es == entries_view(entries@),
            first_named(es, name@, i as int) is None,
        decreases entries@.len() - i,
    {
        let lower = to_lowercase(entries[i].1.as_str());
        proof {
            assert(es[i as int] == (entries@[i as int].0, entries@[i as int].1@));
        }
        if str_eq(lower.as_str(), name) {
            proof {
                assert(first_named(es, name@, i + 1) == Some(entries@[i as int].0));
                lemma_first_named_stays(es, name@, i + 1, es.len() as int);
            }
            return Some(entries[i].0);
        }
        i = i + 1;
    }
    None
}

} // verus!

//! Naming of items moved to the user's Trash.

use vstd::prelude::*;
use crate::text::{decimal, opt_text, digits_value, is_digit, lemma_decimal_reads_back};

verus! {

/// Name given in the Trash to an item moved there at `timestamp` (seconds
/// since the Unix epoch) whose own file name is `name`, or `fallback` when
/// the item has no file name that is valid Unicode.
pub open spec fn trash_entry_name_spec(timestamp: nat, name: Option<Seq<char>>, fallback: Seq<char>) -> Seq<char> {
    let base = match name {
        Some(n) => n,
        None => fallback,
    };
    seq!['N', 'a', 't', 'i', 'v', 'e', 'L', 'o', 'g', 'i', '-'] + decimal(timestamp) + seq!['-'] + base
}

/// `r` reads `NativeLogi-`, then the digits of `timestamp`, then `-`, then
/// `base`.
pub open spec fn names_trash_entry(r: Seq<char>, timestamp: nat, base: Seq<char>) -> bool {
    let digits = r.subrange(11, r.len() - base.len() - 1);
    &&& r.len() > 12 + base.len()
    &&& r.take(11) == seq!['N', 'a', 't', 'i', 'v', 'e', 'L', 'o', 'g', 'i', '-']
    &&& r.subrange(r.len() - base.len() - 1, r.len() as int) == seq!['-'] + base
    &&& forall|k: int| 0 <= k < digits.len() ==> is_digit(#[trigger] digits[k])
    &&& digits_value(digits) == timestamp
}

/// The Trash name keeps the item's own file name whenever it has one, uses
/// the fallback only when it has none, and carries the timestamp in decimal.
pub proof fn lemma_trash_entry_name(timestamp: nat, name: Option<Seq<char>>, fallback: Seq<char>)
    ensures
        name matches Some(n) ==> names_trash_entry(
            trash_entry_name_spec(timestamp, name, fallback),
            timestamp,
            n,
        ),
        name is None ==> names_trash_entry(
            trash_entry_name_spec(timestamp, name, fallback),
            timestamp,
            fallback,
        ),
{
    let base = match name {
        Some(n) => n,
        None => fallback,
    };
    let r = trash_entry_name_spec(timestamp, name, fallback);
    let p = seq!['N', 'a', 't', 'i', 'v', 'e', 'L', 'o', 'g', 'i', '-'];
    let d = decimal(timestamp);
    lemma_decimal_reads_back(timestamp);
    assert(r == p + d + seq!['-'] + base);
    assert(r.take(11) =~= p);
    assert(r.subrange(11, r.len() - base.len() - 1) =~= d);
    assert(r.subrange(r.len() - base.len() - 1, r.len() as int) =~= seq!['-'] + base);
}

/// Returns `NativeLogi-{timestamp}-{name}`, with `fallback` in place of a
/// missing name.
pub fn trash_entry_name(timestamp: u64, name: Option<&str>, fallback: &str) -> (res: String)
    ensures
        res@ == trash_entry_name_spec(timestamp as nat, opt_text(name), fallback@),
        name matches Some(n) ==> names_trash_entry(res@, timestamp as nat, n@),
        name is None ==> names_trash_entry(res@, timestamp as nat, fallback@),
{
    let mut out = String::new();
    out.push_str("NativeLogi-");
    crate::text::push_decimal(&mut out, timestamp);
    out.push('-');
    match name {
        Some(n) => out.push_str(n),
        None => out.push_str(fallback),
    }
    proof {
        reveal_strlit("NativeLogi-");
    }
    assert(out@ =~= trash_entry_name_spec(timestamp as nat, opt_text(name), fallback@));
    proof {
        lemma_trash_entry_name(timestamp as nat, opt_text(name), fallback@);
    }
    out
}

} // verus!

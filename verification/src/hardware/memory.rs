//! System memory, from `/proc/meminfo` or the `hw.memsize` sysctl.
use vstd::prelude::*;
use crate::text::{
    begins_with, chars_of, field_after, lines, opt_chars, parse_u64, parse_u64_chars,
    second_field, split_lines, split_words, starts_with_str, trim, trimmed, trimmed_u64, u64_value,
    views, words,
};

verus! {

/// `i` is the first line that starts with `pat`.
pub open spec fn first_line_starting(ls: Seq<Seq<char>>, pat: Seq<char>, i: int) -> bool {
    &&& 0 <= i < ls.len()
    &&& begins_with(ls[i], pat)
    &&& forall|j: int| 0 <= j < i ==> !begins_with(ls[j], pat)
}

/// The kB figure of a `MemTotal:` line: the first word after the colon.
pub open spec fn memtotal_kb(line: Seq<char>) -> Option<u64> {
    match field_after(line, ':') {
        Some(f) => {
            let ws = words(trim(f));
            if ws.len() > 0 {
                parse_u64(ws[0])
            } else {
                None
            }
        },
        None => None,
    }
}

/// System memory in MB from `/proc/meminfo`: the first line starting with
/// `MemTotal` gives kB, divided by 1024; zero when it is missing or unreadable.
pub open spec fn meminfo_mb(text: Seq<char>) -> u64 {
    let ls = lines(text);
    if exists|i: int| first_line_starting(ls, "MemTotal"@, i) {
        match memtotal_kb(ls[choose|i: int| first_line_starting(ls, "MemTotal"@, i)]) {
            Some(kb) => kb / 1024,
            None => 0,
        }
    } else {
        0
    }
}

fn memtotal_line(line: &Vec<char>) -> (r: Option<u64>)
    ensures
        r == memtotal_kb(line@),
{
    match second_field(line, ':') {
        Some(f) => {
            let t = trimmed(&f);
            let ws = split_words(&t);
            if ws.len() > 0 {
                assert(views(ws@)[0] == ws@[0]@);
                parse_u64_chars(&ws[0])
            } else {
                None
            }
        },
        None => None,
    }
}

/// System memory in MB from the text of `/proc/meminfo`.
pub fn ram_mb_from_meminfo(text: &str) -> (mb: u64)
    ensures
        mb == meminfo_mb(text@),
{
    let chars = chars_of(text);
    let ls = split_lines(&chars);
    let ghost lv = views(ls@);
    let mut i: usize = 0;
    while i < ls.len()
        invariant
            i <= ls.len(),
            lv == views(ls@),
            lv == lines(text@),
            forall|j: int| 0 <= j < i ==> !begins_with(lv[j], "MemTotal"@),
        decreases ls.len() - i,
    {
        assert(lv[i as int] == ls@[i as int]@);
        if starts_with_str(&ls[i], "MemTotal") {
            assert(first_line_starting(lv, "MemTotal"@, i as int));
            let ghost k = choose|k: int| first_line_starting(lv, "MemTotal"@, k);
            assert(k == i) by {
                if k < i {
                    assert(!begins_with(lv[k], "MemTotal"@));
                } else if k > i {
                    assert(!begins_with(lv[i as int], "MemTotal"@));
                }
            }
            return match memtotal_line(&ls[i]) {
                Some(kb) => kb / 1024,
                None => 0,
            };
        }
        i = i + 1;
    }
    assert(!exists|k: int| first_line_starting(lv, "MemTotal"@, k));
    0
}

/// System memory in MB from the output of `sysctl -n hw.memsize` (bytes),
/// `None` when that was not UTF-8 text; zero when it holds no number.
pub fn ram_mb_from_memsize(out: Option<&str>) -> (mb: u64)
    ensures
        mb == match trimmed_u64(opt_chars(out)) {
            Some(b) => b / 1_048_576,
            None => 0,
        },
{
    match u64_value(out) {
        Some(b) => b / 1_048_576,
        None => 0,
    }
}

} // verus!

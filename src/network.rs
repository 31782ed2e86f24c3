//! Reading the association of the active wireless interface from the
//! network manager's terse listing, one `active:ssid` line per network.
use vstd::prelude::*;

use crate::parser::{scan, scan_to, Stop};
use crate::text::{chars_of, string_of, views};

verus! {

/// A line without the carriage return that may end it.
pub open spec fn strip_cr(line: Seq<char>) -> Seq<char> {
    if line.len() > 0 && line.last() == '\r' {
        line.drop_last()
    } else {
        line
    }
}

/// The network of an active line (`yes:<ssid>`), if it is one of `targets`.
pub open spec fn active_target(line: Seq<char>, targets: Seq<Seq<char>>) -> Option<Seq<char>> {
    if line.len() >= 4 && line.take(4) == "yes:"@ && targets.contains(line.skip(4)) {
        Some(line.skip(4))
    } else {
        None
    }
}

/// The first active target network named by a line that starts at or after
/// `start`.
pub open spec fn active_from(cs: Seq<char>, start: int, targets: Seq<Seq<char>>) -> Option<
    Seq<char>,
>
    decreases cs.len() + 1 - start,
{
    if start < 0 || start >= cs.len() {
        None
    } else {
        let end = scan_to(cs, start, Stop::LineEnd);
        match active_target(strip_cr(cs.subrange(start, end)), targets) {
            Some(s) => Some(s),
            None => active_from(cs, if start <= end < cs.len() {
                end + 1
            } else {
                cs.len() as int
            }, targets),
        }
    }
}

/// The scan for a line end stays within the text and does not go back.
proof fn lemma_scan_bounds(cs: Seq<char>, from: int, stop: Stop)
    requires
        0 <= from <= cs.len(),
    ensures
        from <= scan_to(cs, from, stop) <= cs.len(),
{
    crate::parser::lemma_first_index_some(
        from,
        cs.len() as int,
        crate::parser::stop_pred(cs, stop),
    );
}

/// The target network that the listing shows as active, if any: the first
/// line `yes:<ssid>` whose network is one of `targets`.
pub fn active_target_ssid(listing: &str, targets: &Vec<String>) -> (r: Option<String>)
    ensures
        match active_from(listing@, 0, views(targets@)) {
            Some(s) => r matches Some(x) && x@ == s,
            None => r is None,
        },
{
    let cs = chars_of(listing);
    let yes = chars_of("yes:");
    proof {
        reveal_strlit("yes:");
    }
    let mut start: usize = 0;
    while start < cs.len()
        invariant
            start <= cs@.len(),
            cs@ == listing@,
            yes@ == "yes:"@,
            active_from(cs@, 0, views(targets@)) == active_from(cs@, start as int, views(targets@)),
        decreases cs.len() - start,
    {
        let end = scan(&cs, start, Stop::LineEnd);
        proof {
            lemma_scan_bounds(cs@, start as int, Stop::LineEnd);
        }
        let line_end = if end > start && cs[end - 1] == '\r' {
            end - 1
        } else {
            end
        };
        proof {
            let line = cs@.subrange(start as int, end as int);
            assert(strip_cr(line) =~= cs@.subrange(start as int, line_end as int));
        }
        if line_end - start >= 4 && crate::text::matches_at(&cs, start, &yes) {
            let name = string_of(&cs, start + 4, line_end);
            let mut k: usize = 0;
            let mut hit = false;
            while k < targets.len()
                invariant
                    k <= targets@.len(),
                    crate::text::occurs_at(cs@, start as int, "yes:"@),
                    start + 4 <= line_end <= cs@.len(),
                    name@ == cs@.subrange(start + 4, line_end as int),
                    !hit ==> forall|j: int| 0 <= j < k ==> targets@[j]@ != name@,
                    hit ==> views(targets@).contains(name@),
                decreases targets.len() - k,
            {
                if !hit && crate::text::same_text(targets[k].as_str(), name.as_str()) {
                    proof {
                        assert(views(targets@)[k as int] == name@);
                    }
                    hit = true;
                }
                k = k + 1;
            }
            let ghost line = cs@.subrange(start as int, line_end as int);
            proof {
                assert(cs@.subrange(start as int, start + 4) =~= line.take(4));
                assert(line.skip(4) =~= name@);
                if !hit && views(targets@).contains(name@) {
                    let j = choose|j: int| 0 <= j < views(targets@).len() && views(targets@)[j] == name@;
                    assert(targets@[j]@ == name@);
                }
            }
            if hit {
                proof {
                    assert(line.len() >= 4);
                    assert(strip_cr(cs@.subrange(start as int, end as int)) == line);
                    reveal_strlit("yes:");
                    assert(cs@.subrange(start as int, start + 4) == "yes:"@);
                    assert(line.take(4) == "yes:"@);
                    assert(line.skip(4) == name@);
                    assert(views(targets@).contains(name@));
                    assert(active_target(line, views(targets@)) == Some(name@));
                    assert(active_from(cs@, start as int, views(targets@)) == Some(name@));
                }
                return Some(name);
            }
        } else {
            proof {
                let line = cs@.subrange(start as int, line_end as int);
                if line.len() >= 4 && line.take(4) == "yes:"@ {
                    assert(cs@.subrange(start as int, start + 4) =~= line.take(4));
                }
            }
        }
        if end >= cs.len() {
            proof {
                assert(active_from(cs@, cs@.len() as int, views(targets@)) is None);
                assert(active_from(cs@, start as int, views(targets@)) is None);
            }
            return None;
        }
        start = end + 1;
    }
    None
}

} // verus!

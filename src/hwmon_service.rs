//! The list of sensor groups found under the hwmon class directory.

use vstd::prelude::*;
use crate::hwmon::Hwmon;
use crate::sysfs::{join, join_path, FileEntry};
use crate::text::{lemma_lex_total, lemma_lex_transitive, lex_le, starts_with, text_le};

verus! {

/// A directory of the class directory is a sensor group when its name
/// starts with `hwmon` and its `name` attribute could be read.
pub open spec fn accepted_group(e: FileEntry) -> bool {
    &&& e.name@.len() >= 5
    &&& e.name@.subrange(0, 5) == seq!['h', 'w', 'm', 'o', 'n']
    &&& e.content is Some
}

/// `h` is the fresh group made of entry `e` of class directory `root`.
pub open spec fn group_of(h: Hwmon, root: Seq<char>, e: FileEntry) -> bool {
    &&& h.path@ == join_path(root, e.name@)
    &&& h.name@ == e.content->0@
    &&& h.fans@.len() == 0
    &&& h.temps@.len() == 0
    &&& h.pwms@.len() == 0
}

/// `groups[k]` is made of entry `src[k]`; each accepted entry is used once.
pub open spec fn group_sources(
    groups: Seq<Hwmon>,
    root: Seq<char>,
    entries: Seq<FileEntry>,
    src: Seq<int>,
) -> bool {
    &&& src.len() == groups.len()
    &&& forall|k: int|
        0 <= k < src.len() ==> 0 <= #[trigger] src[k] < entries.len() && accepted_group(
            entries[src[k]],
        ) && group_of(groups[k], root, entries[src[k]])
    &&& forall|a: int, b: int| 0 <= a < b < src.len() ==> src[a] != src[b]
    &&& forall|e: int| 0 <= e < entries.len() && accepted_group(entries[e]) ==> src.contains(e)
}

pub open spec fn sorted_by_path(groups: Seq<Hwmon>) -> bool {
    forall|a: int, b: int| 0 <= a < b < groups.len() ==> lex_le(groups[a].path@, groups[b].path@)
}

/// All sensor groups found, ordered by path.
pub struct HwmonService {
    pub hwmons: Vec<Hwmon>,
}

impl HwmonService {
    /// The groups among the directories `entries` of class directory `root`
    /// (each entry's content being its trimmed `name` attribute), in path
    /// order.
    pub fn new(root: &str, entries: &Vec<FileEntry>) -> (r: HwmonService)
        ensures
            exists|src: Seq<int>| group_sources(r.hwmons@, root@, entries@, src),
            sorted_by_path(r.hwmons@),
    {
        proof {
            reveal_strlit("hwmon");
        }
        let n = entries.len();
        let mut list: Vec<Hwmon> = Vec::new();
        let ghost mut src: Seq<int> = Seq::empty();
        let mut i: usize = 0;
        while i < n
            invariant
                n == entries@.len(),
                i <= n,
                "hwmon"@ == seq!['h', 'w', 'm', 'o', 'n'],
                src.len() == list@.len(),
                forall|k: int|
                    0 <= k < src.len() ==> 0 <= #[trigger] src[k] < i && accepted_group(
                        entries@[src[k]],
                    ) && group_of(list@[k], root@, entries@[src[k]]),
                forall|a: int, b: int| 0 <= a < b < src.len() ==> src[a] != src[b],
                forall|e: int| 0 <= e < i && accepted_group(entries@[e]) ==> src.contains(e),
                sorted_by_path(list@),
            decreases n - i,
        {
            let e = &entries[i];
            if starts_with(e.name.as_str(), "hwmon") {
                match &e.content {
                    Some(name) => {
                        let path = join(root, e.name.as_str());
                        let mut p: usize = 0;
                        while p < list.len() && text_le(list[p].path.as_str(), path.as_str())
                            invariant
                                p <= list@.len(),
                                forall|a: int| 0 <= a < p ==> lex_le(list@[a].path@, path@),
                            decreases list@.len() - p,
                        {
                            p = p + 1;
                        }
                        let ghost old_list = list@;
                        let ghost old_src = src;
                        list.insert(p, Hwmon::new(path, name.clone()));
                        proof {
                            src = src.insert(p as int, i as int);
                            assert forall|k: int| 0 <= k < src.len() implies 0 <= #[trigger] src[k]
                                < i + 1 && accepted_group(entries@[src[k]]) && group_of(
                                list@[k],
                                root@,
                                entries@[src[k]],
                            ) by {
                                if k < p {
                                    assert(src[k] == old_src[k] && list@[k] == old_list[k]);
                                } else if k > p {
                                    assert(src[k] == old_src[k - 1] && list@[k] == old_list[k - 1]);
                                }
                            }
                            assert forall|a: int, b: int| 0 <= a < b < src.len() implies src[a]
                                != src[b] by {
                                if a != p && b != p {
                                    let a0 = if a < p { a } else { a - 1 };
                                    let b0 = if b < p { b } else { b - 1 };
                                    assert(src[a] == old_src[a0] && src[b] == old_src[b0]);
                                } else if a == p {
                                    assert(src[b] == old_src[b - 1]);
                                } else {
                                    assert(src[a] == old_src[a]);
                                }
                            }
                            assert forall|x: int|
                                0 <= x < i + 1 && accepted_group(entries@[x]) implies src.contains(
                                x,
                            ) by {
                                if x == i {
                                    assert(src[p as int] == x);
                                } else {
                                    assert(old_src.contains(x));
                                    let a0 = choose|a: int| 0 <= a < old_src.len() && old_src[a] == x;
                                    if a0 < p {
                                        assert(src[a0] == x);
                                    } else {
                                        assert(src[a0 + 1] == x);
                                    }
                                }
                            }
                            assert forall|a: int, b: int| 0 <= a < b < list@.len() implies lex_le(
                                list@[a].path@,
                                list@[b].path@,
                            ) by {
                                if b < p {
                                    assert(list@[a] == old_list[a] && list@[b] == old_list[b]);
                                } else if b == p {
                                    assert(list@[a] == old_list[a]);
                                } else if a > p {
                                    assert(list@[a] == old_list[a - 1] && list@[b] == old_list[b - 1]);
                                } else if a == p {
                                    assert(list@[b] == old_list[b - 1]);
                                    lemma_lex_total(old_list[p as int].path@, path@);
                                    if b - 1 > p {
                                        lemma_lex_transitive(
                                            path@,
                                            old_list[p as int].path@,
                                            old_list[b - 1].path@,
                                        );
                                    }
                                } else {
                                    assert(list@[a] == old_list[a] && list@[b] == old_list[b - 1]);
                                }
                            }
                        }
                    },
                    None => {},
                }
            }
            i = i + 1;
        }
        let r = HwmonService { hwmons: list };
        assert(group_sources(r.hwmons@, root@, entries@, src));
        r
    }
}

} // verus!

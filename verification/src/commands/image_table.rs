//! The images of `cross` grouped by target, the targets in order, as
//! `cross-util images list` shows them.

use vstd::prelude::*;
use vstd::utf8::encode_utf8;
use crate::commands::images::LocalImage;
use crate::docker::remote::{seq_lt, str_lt, seq_lt_total, seq_lt_transitive};
use crate::text::{copy_str, views, str_eq};

verus! {

broadcast use vstd::string::group_string_axioms;

/// A target is shown when no targets are asked for, or it is one of them.
pub open spec fn wanted(targets: Seq<Seq<char>>, t: Seq<char>) -> bool {
    targets.len() == 0 || targets.contains(t)
}

/// The images of a list whose target is `t`, in order.
pub open spec fn images_for(ims: Seq<(Seq<char>, LocalImage)>, t: Seq<char>) -> Seq<LocalImage>
    decreases ims.len(),
{
    if ims.len() == 0 {
        Seq::empty()
    } else if ims.last().0 == t {
        images_for(ims.drop_last(), t).push(ims.last().1)
    } else {
        images_for(ims.drop_last(), t)
    }
}

/// The groups of a table by their views: each target and its images.
pub open spec fn groups_view(g: Seq<(String, Vec<LocalImage>)>) -> Seq<(Seq<char>, Seq<LocalImage>)> {
    g.map_values(|e: (String, Vec<LocalImage>)| (e.0@, e.1@))
}

/// The targets of a table come in strictly increasing order.
pub open spec fn keys_sorted(g: Seq<(Seq<char>, Seq<LocalImage>)>) -> bool {
    forall|a: int, b: int| 0 <= a < b < g.len() ==> seq_lt(#[trigger] g[a].0, #[trigger] g[b].0)
}

/// A table of images grouped by target: each target shown has a group of
/// the images for it, in the order listed, and each target shown that has
/// an image has a group.
pub open spec fn grouped(
    g: Seq<(Seq<char>, Seq<LocalImage>)>,
    ims: Seq<(Seq<char>, LocalImage)>,
    targets: Seq<Seq<char>>,
) -> bool {
    &&& keys_sorted(g)
    &&& forall|a: int| 0 <= a < g.len() ==> wanted(targets, (#[trigger] g[a]).0)
        && g[a].1 == images_for(ims, g[a].0) && g[a].1.len() > 0
    &&& forall|t: Seq<char>| wanted(targets, t) && (#[trigger] images_for(ims, t)).len() > 0
        ==> exists|a: int| 0 <= a < g.len() && (#[trigger] g[a]).0 == t
}

impl LocalImage {
    /// A copy of this image.
    pub fn duplicate(&self) -> (r: LocalImage)
        ensures
            r == *self,
    {
        LocalImage { repository: self.repository.clone(), tag: self.tag.clone(), id: self.id.clone() }
    }
}

fn is_wanted(targets: &Vec<String>, t: &str) -> (r: bool)
    ensures
        r == wanted(views(targets@), t@),
{
    if targets.len() == 0 {
        return true;
    }
    let ghost ts = views(targets@);
    let mut i: usize = 0;
    while i < targets.len()
        invariant
            i <= targets@.len(),
            ts == views(targets@),
            forall|j: int| 0 <= j < i ==> ts[j] != t@,
        decreases targets@.len() - i,
    {
        if str_eq(targets[i].as_str(), t) {
            assert(ts[i as int] == t@);
            return true;
        }
        i += 1;
    }
    false
}

proof fn lemma_images_for_push(ims: Seq<(Seq<char>, LocalImage)>, e: (Seq<char>, LocalImage), t: Seq<char>)
    ensures
        images_for(ims.push(e), t) == if e.0 == t { images_for(ims, t).push(e.1) } else { images_for(ims, t) },
{
    assert(ims.push(e).drop_last() =~= ims);
}

/// The images of a list, each with its target, grouped by target (see
/// [`grouped`]): only the targets asked for, or all where none are.
pub fn group_images(images: &Vec<(String, LocalImage)>, targets: &Vec<String>) -> (r: Vec<(String, Vec<LocalImage>)>)
    ensures
        grouped(groups_view(r@), images@.map_values(|e: (String, LocalImage)| (e.0@, e.1)), views(targets@)),
{
    let ghost ims = images@.map_values(|e: (String, LocalImage)| (e.0@, e.1));
    let ghost ts = views(targets@);
    let mut groups: Vec<(String, Vec<LocalImage>)> = Vec::new();
    let mut n: usize = 0;
    assert(grouped(groups_view(groups@), ims.take(0), ts)) by {
        assert forall|t: Seq<char>| wanted(ts, t) && (#[trigger] images_for(ims.take(0), t)).len() > 0
            implies exists|a: int| 0 <= a < groups_view(groups@).len() && (#[trigger] groups_view(groups@)[a]).0 == t by {
            assert(ims.take(0).len() == 0);
        }
    }
    while n < images.len()
        invariant
            n <= images@.len(),
            ims == images@.map_values(|e: (String, LocalImage)| (e.0@, e.1)),
            ts == views(targets@),
            grouped(groups_view(groups@), ims.take(n as int), ts),
        decreases images@.len() - n,
    {
        let ghost p = ims.take(n as int);
        let ghost g = groups_view(groups@);
        let t = images[n].0.as_str();
        let ghost e = (t@, images@[n as int].1);
        assert(ims[n as int] == e);
        assert(ims.take(n + 1) =~= p.push(e));
        proof {
            assert forall|k: Seq<char>| #[trigger] images_for(ims.take(n + 1), k)
                == (if e.0 == k { images_for(p, k).push(e.1) } else { images_for(p, k) }) by {
                lemma_images_for_push(p, e, k);
            }
        }
        if is_wanted(targets, t) {
            let mut j: usize = 0;
            while j < groups.len() && str_lt(groups[j].0.as_str(), t)
                invariant
                    j <= groups@.len(),
                    g == groups_view(groups@),
                    forall|a: int| 0 <= a < j ==> seq_lt(#[trigger] g[a].0, t@),
                decreases groups@.len() - j,
            {
                j += 1;
            }
            if j < groups.len() && str_eq(groups[j].0.as_str(), t) {
                let mut entry = groups.remove(j);
                entry.1.push(images[n].1.duplicate());
                groups.insert(j, entry);
                proof {
                    let g2 = groups_view(groups@);
                    assert(g2 =~= g.update(j as int, (g[j as int].0, g[j as int].1.push(e.1))));
                    assert forall|a: int| 0 <= a < g2.len() implies wanted(ts, (#[trigger] g2[a]).0)
                        && g2[a].1 == images_for(ims.take(n + 1), g2[a].0) && g2[a].1.len() > 0 by {
                        if a != j {
                            assert(g2[a] == g[a]);
                            assert(g[a].0 != t@) by {
                                seq_lt_total(g[a].0, g[j as int].0);
                            }
                        }
                    }
                    assert forall|k: Seq<char>| wanted(ts, k) && (#[trigger] images_for(ims.take(n + 1), k)).len() > 0
                        implies exists|a: int| 0 <= a < g2.len() && (#[trigger] g2[a]).0 == k by {
                        if k == t@ {
                            assert(g2[j as int].0 == k);
                        } else {
                            let a = choose|a: int| 0 <= a < g.len() && (#[trigger] g[a]).0 == k;
                            assert(g2[a].0 == k);
                        }
                    }
                }
            } else {
                let mut v: Vec<LocalImage> = Vec::new();
                v.push(images[n].1.duplicate());
                groups.insert(j, (copy_str(t), v));
                proof {
                    let g2 = groups_view(groups@);
                    let new_e = (t@, seq![e.1]);
                    assert(g2 =~= g.insert(j as int, new_e));
                    if j < g.len() {
                        seq_lt_total(g[j as int].0, t@);
                        assert(seq_lt(t@, g[j as int].0));
                    }
                    assert forall|a: int| j <= a < g.len() implies seq_lt(t@, #[trigger] g[a].0) by {
                        if a > j {
                            seq_lt_transitive(t@, g[j as int].0, g[a].0);
                        }
                    }
                    assert forall|a: int| 0 <= a < g.len() implies (#[trigger] g[a]).0 != t@ by {
                        if a < j {
                            seq_lt_total(g[a].0, t@);
                        } else {
                            seq_lt_total(t@, g[a].0);
                        }
                    }
                    assert(images_for(p, t@).len() == 0) by {
                        if images_for(p, t@).len() > 0 {
                            let a = choose|a: int| 0 <= a < g.len() && (#[trigger] g[a]).0 == t@;
                        }
                    }
                    assert(images_for(p, t@) =~= Seq::<LocalImage>::empty());
                    assert(keys_sorted(g2)) by {
                        assert forall|a: int, b: int| 0 <= a < b < g2.len() implies seq_lt(#[trigger] g2[a].0, #[trigger] g2[b].0) by {
                            if b < j {
                                assert(g2[a] == g[a] && g2[b] == g[b]);
                            } else if b == j {
                                assert(g2[a] == g[a]);
                            } else if a < j {
                                assert(g2[a] == g[a] && g2[b] == g[b - 1]);
                                seq_lt_transitive(g[a].0, t@, g[b - 1].0);
                            } else if a == j {
                                assert(g2[b] == g[b - 1]);
                            } else {
                                assert(g2[a] == g[a - 1] && g2[b] == g[b - 1]);
                            }
                        }
                    }
                    assert forall|a: int| 0 <= a < g2.len() implies wanted(ts, (#[trigger] g2[a]).0)
                        && g2[a].1 == images_for(ims.take(n + 1), g2[a].0) && g2[a].1.len() > 0 by {
                        if a < j {
                            assert(g2[a] == g[a]);
                        } else if a > j {
                            assert(g2[a] == g[a - 1]);
                        } else {
                            assert(images_for(ims.take(n + 1), t@) =~= seq![e.1]);
                        }
                    }
                    assert forall|k: Seq<char>| wanted(ts, k) && (#[trigger] images_for(ims.take(n + 1), k)).len() > 0
                        implies exists|a: int| 0 <= a < g2.len() && (#[trigger] g2[a]).0 == k by {
                        if k == t@ {
                            assert(g2[j as int].0 == k);
                        } else {
                            let a = choose|a: int| 0 <= a < g.len() && (#[trigger] g[a]).0 == k;
                            if a < j {
                                assert(g2[a].0 == k);
                            } else {
                                assert(g2[a + 1].0 == k);
                            }
                        }
                    }
                }
            }
        } else {
            proof {
                assert forall|a: int| 0 <= a < g.len() implies wanted(ts, (#[trigger] g[a]).0)
                    && g[a].1 == images_for(ims.take(n + 1), g[a].0) && g[a].1.len() > 0 by {
                    assert(g[a].0 != t@);
                }
                assert forall|k: Seq<char>| wanted(ts, k) && (#[trigger] images_for(ims.take(n + 1), k)).len() > 0
                    implies exists|a: int| 0 <= a < g.len() && (#[trigger] g[a]).0 == k by {
                    assert(k != t@);
                }
            }
        }
        n += 1;
    }
    assert(ims.take(n as int) =~= ims);
    groups
}

/// The length of a string in bytes, as `str::len` gives it.
pub open spec fn byte_len(s: Seq<char>) -> nat {
    (encode_utf8(s).len() as usize) as nat
}

/// The longest of a list of lengths, 0 for none.
pub open spec fn max_of(ls: Seq<nat>) -> nat
    decreases ls.len(),
{
    if ls.len() == 0 {
        0
    } else {
        let m = max_of(ls.drop_last());
        if ls.last() > m { ls.last() } else { m }
    }
}

/// The lengths of the targets of a table, in bytes.
pub open spec fn key_lens(g: Seq<(Seq<char>, Seq<LocalImage>)>) -> Seq<nat> {
    g.map_values(|e: (Seq<char>, Seq<LocalImage>)| byte_len(e.0))
}

/// The lengths of the names (`repository:tag`) of some images, in bytes.
pub open spec fn name_lens(ims: Seq<LocalImage>) -> Seq<nat> {
    ims.map_values(|i: LocalImage| byte_len(i.repository@ + ":"@ + i.tag@))
}

/// The longest image name of each group of a table.
pub open spec fn group_name_lens(g: Seq<(Seq<char>, Seq<LocalImage>)>) -> Seq<nat> {
    g.map_values(|e: (Seq<char>, Seq<LocalImage>)| max_of(name_lens(e.1)))
}

proof fn lemma_max_of_push(ls: Seq<nat>, x: nat)
    ensures
        max_of(ls.push(x)) == if x > max_of(ls) { x } else { max_of(ls) },
{
    assert(ls.push(x).drop_last() =~= ls);
}

/// The widths of the columns of the table of images: the longest target
/// and the longest image name, in bytes.
pub fn column_widths(groups: &Vec<(String, Vec<LocalImage>)>) -> (r: (usize, usize))
    ensures
        r.0 == max_of(key_lens(groups_view(groups@))),
        r.1 == max_of(group_name_lens(groups_view(groups@))),
{
    let ghost g = groups_view(groups@);
    let mut wt: usize = 0;
    let mut wi: usize = 0;
    let mut a: usize = 0;
    assert(key_lens(g).take(0) =~= Seq::<nat>::empty());
    assert(group_name_lens(g).take(0) =~= Seq::<nat>::empty());
    while a < groups.len()
        invariant
            a <= groups@.len(),
            g == groups_view(groups@),
            wt == max_of(key_lens(g).take(a as int)),
            wi == max_of(group_name_lens(g).take(a as int)),
        decreases groups@.len() - a,
    {
        let kl = groups[a].0.as_str().len();
        proof {
            assert(key_lens(g).take(a + 1) =~= key_lens(g).take(a as int).push(kl as nat));
            lemma_max_of_push(key_lens(g).take(a as int), kl as nat);
        }
        if kl > wt {
            wt = kl;
        }
        let ims = &groups[a].1;
        let mut m: usize = 0;
        let mut b: usize = 0;
        assert(name_lens(ims@).take(0) =~= Seq::<nat>::empty());
        while b < ims.len()
            invariant
                b <= ims@.len(),
                m == max_of(name_lens(ims@).take(b as int)),
            decreases ims@.len() - b,
        {
            let name = ims[b].name();
            let l = name.as_str().len();
            proof {
                assert(name_lens(ims@).take(b + 1) =~= name_lens(ims@).take(b as int).push(l as nat));
                lemma_max_of_push(name_lens(ims@).take(b as int), l as nat);
            }
            if l > m {
                m = l;
            }
            b += 1;
        }
        assert(name_lens(ims@).take(b as int) =~= name_lens(ims@));
        proof {
            assert(g[a as int].1 == ims@);
            assert(group_name_lens(g).take(a + 1) =~= group_name_lens(g).take(a as int).push(m as nat));
            lemma_max_of_push(group_name_lens(g).take(a as int), m as nat);
        }
        if m > wi {
            wi = m;
        }
        a += 1;
    }
    assert(key_lens(g).take(a as int) =~= key_lens(g));
    assert(group_name_lens(g).take(a as int) =~= group_name_lens(g));
    (wt, wi)
}

} // verus!

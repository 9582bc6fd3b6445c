//! Quality labels of the form `WIDTHxHEIGHT`, and the choice of the label
//! closest to a preferred one.
use vstd::prelude::*;
use crate::decimal::{is_digit, is_numeral, numeral_value, parse_numeral};
use crate::errors::ErrorKind;

verus! {

/// `s` reads as a width numeral, an `x` at index `k`, and a height numeral,
/// both within `u32`.
pub open spec fn splits_at(s: Seq<char>, k: int) -> bool {
    &&& 0 <= k < s.len()
    &&& s[k] == 'x'
    &&& is_numeral(s.take(k))
    &&& is_numeral(s.skip(k + 1))
    &&& numeral_value(s.take(k)) <= u32::MAX
    &&& numeral_value(s.skip(k + 1)) <= u32::MAX
}

/// A well-formed quality label.
pub open spec fn is_label(s: Seq<char>) -> bool {
    exists|k: int| splits_at(s, k)
}

/// The index of the `x` in a well-formed label (it has only one).
pub open spec fn label_split(s: Seq<char>) -> int {
    choose|k: int| splits_at(s, k)
}

/// Width and height that a well-formed label denotes.
pub open spec fn label_dims(s: Seq<char>) -> (u32, u32) {
    let k = label_split(s);
    (numeral_value(s.take(k)) as u32, numeral_value(s.skip(k + 1)) as u32)
}

/// The distance between two integers.
pub open spec fn abs_diff(a: int, b: int) -> nat {
    if a >= b {
        (a - b) as nat
    } else {
        (b - a) as nat
    }
}

/// Manhattan distance between two (width, height) pairs.
pub open spec fn distance(a: (u32, u32), b: (u32, u32)) -> nat {
    abs_diff(a.0 as int, b.0 as int) + abs_diff(a.1 as int, b.1 as int)
}

/// The texts of a list of labels.
pub open spec fn label_texts(l: Seq<&String>) -> Seq<Seq<char>> {
    Seq::new(l.len(), |i: int| l[i]@)
}

/// Every candidate and the target are well-formed labels.
pub open spec fn all_labels(cands: Seq<Seq<char>>, target: Seq<char>) -> bool {
    &&& is_label(target)
    &&& forall|j: int| 0 <= j < cands.len() ==> #[trigger] is_label(cands[j])
}

/// The distance of candidate `j` to the target.
pub open spec fn dist_to(cands: Seq<Seq<char>>, target: Seq<char>, j: int) -> nat {
    distance(label_dims(cands[j]), label_dims(target))
}

/// `k` is the first candidate at the least distance from the target.
pub open spec fn is_first_closest(cands: Seq<Seq<char>>, target: Seq<char>, k: int) -> bool {
    &&& 0 <= k < cands.len()
    &&& forall|j: int|
        0 <= j < cands.len() ==> #[trigger] dist_to(cands, target, j) >= dist_to(cands, target, k)
    &&& forall|j: int| 0 <= j < k ==> #[trigger] dist_to(cands, target, j) > dist_to(cands, target, k)
}

/// The `x` of a well-formed label is its first `x`.
proof fn lemma_split_unique(s: Seq<char>, k1: int, k2: int)
    requires
        splits_at(s, k1),
        0 <= k2 < s.len(),
        s[k2] == 'x',
        forall|j: int| 0 <= j < k2 ==> s[j] != 'x',
    ensures
        k1 == k2,
{
    if k1 < k2 {
        assert(s[k1] == 'x');
    } else if k1 > k2 {
        assert(s.take(k1)[k2] == 'x');
        assert(is_digit(s.take(k1)[k2]));
    }
}

/// Reads a label into its width and height.
pub fn parse_resolution(res: &str) -> (r: Result<(u32, u32), ErrorKind>)
    ensures
        r.is_ok() <==> is_label(res@),
        r.is_ok() ==> r.unwrap() == label_dims(res@),
        r.is_err() ==> r == Err::<(u32, u32), ErrorKind>(ErrorKind::Format),
{
    let n = res.unicode_len();
    let mut i: usize = 0;
    while i < n
        invariant
            n == res@.len(),
            i <= n,
            forall|j: int| 0 <= j < i ==> res@[j] != 'x',
        ensures
            i <= n,
            forall|j: int| 0 <= j < i ==> res@[j] != 'x',
            i < n ==> res@[i as int] == 'x',
        decreases n - i,
    {
        if res.get_char(i) == 'x' {
            break;
        }
        i = i + 1;
    }
    if i == n {
        assert forall|k: int| !splits_at(res@, k) by {
            if 0 <= k < res@.len() {
                assert(res@[k] != 'x');
            }
        }
        return Err(ErrorKind::Format);
    }
    let ghost s = res@;
    assert(s.take(i as int) =~= s.subrange(0, i as int));
    assert(s.skip(i + 1) =~= s.subrange(i + 1, n as int));
    let w = parse_numeral(res, 0, i, 0xffff_ffff);
    let h = parse_numeral(res, i + 1, n, 0xffff_ffff);
    match (w, h) {
        (Some(w), Some(h)) => {
            assert(splits_at(s, i as int));
            proof {
                lemma_split_unique(s, label_split(s), i as int);
            }
            Ok((w as u32, h as u32))
        },
        _ => {
            assert forall|k: int| !splits_at(s, k) by {
                if splits_at(s, k) {
                    lemma_split_unique(s, k, i as int);
                }
            }
            Err(ErrorKind::Format)
        },
    }
}

/// Manhattan distance between two (width, height) pairs.
pub fn calculate_distance(res1: (u32, u32), res2: (u32, u32)) -> (r: u64)
    ensures
        r as nat == distance(res1, res2),
{
    let dw: u64 = if res1.0 >= res2.0 {
        (res1.0 - res2.0) as u64
    } else {
        (res2.0 - res1.0) as u64
    };
    let dh: u64 = if res1.1 >= res2.1 {
        (res1.1 - res2.1) as u64
    } else {
        (res2.1 - res1.1) as u64
    };
    dw + dh
}

/// The index of the label of `res_list` closest to `target_res`, the first
/// one on a tie. An empty list fails with `EmptyCandidates` whatever the target;
/// otherwise a malformed label, among the candidates or as the target, fails
/// with `Format`.
pub fn closest_index(res_list: &[&String], target_res: &str) -> (r: Result<usize, ErrorKind>)
    ensures
        res_list@.len() == 0 ==> r == Err::<usize, ErrorKind>(ErrorKind::EmptyCandidates),
        res_list@.len() > 0 && !all_labels(label_texts(res_list@), target_res@) ==> r == Err::<
            usize,
            ErrorKind,
        >(ErrorKind::Format),
        res_list@.len() > 0 && all_labels(label_texts(res_list@), target_res@) ==> {
            &&& r.is_ok()
            &&& is_first_closest(label_texts(res_list@), target_res@, r.unwrap() as int)
        },
{
    let ghost cands = label_texts(res_list@);
    let ghost t = target_res@;
    if res_list.len() == 0 {
        return Err(ErrorKind::EmptyCandidates);
    }
    let target = match parse_resolution(target_res) {
        Ok(d) => d,
        Err(e) => {
            return Err(e);
        },
    };
    let first: &String = res_list[0];
    let d0 = match parse_resolution(first.as_str()) {
        Ok(d) => d,
        Err(e) => {
            assert(!is_label(cands[0]));
            return Err(e);
        },
    };
    let mut best: usize = 0;
    let mut best_dist: u64 = calculate_distance(d0, target);
    let mut i: usize = 1;
    while i < res_list.len()
        invariant
            cands == label_texts(res_list@),
            t == target_res@,
            is_label(t),
            target == label_dims(t),
            1 <= i <= res_list@.len(),
            best < i,
            forall|j: int| 0 <= j < i ==> #[trigger] is_label(cands[j]),
            best_dist as nat == dist_to(cands, t, best as int),
            forall|j: int| 0 <= j < i ==> #[trigger] dist_to(cands, t, j) >= best_dist,
            forall|j: int| 0 <= j < best ==> #[trigger] dist_to(cands, t, j) > best_dist,
        decreases res_list@.len() - i,
    {
        let cur: &String = res_list[i];
        let d = match parse_resolution(cur.as_str()) {
            Ok(d) => d,
            Err(e) => {
                assert(!is_label(cands[i as int]));
                return Err(e);
            },
        };
        let dist = calculate_distance(d, target);
        assert(dist as nat == dist_to(cands, t, i as int));
        if dist < best_dist {
            best = i;
            best_dist = dist;
        }
        i = i + 1;
    }
    assert(is_first_closest(cands, t, best as int));
    Ok(best)
}

/// Picks among `res_list` the label closest to `target_res`, the first one
/// on a tie. An empty list fails with `EmptyCandidates` whatever the target;
/// otherwise a malformed label, among the candidates or as the target, fails
/// with `Format`.
pub fn closest_resolution(res_list: &[&String], target_res: &str) -> (r: Result<String, ErrorKind>)
    ensures
        res_list@.len() == 0 ==> r == Err::<String, ErrorKind>(ErrorKind::EmptyCandidates),
        res_list@.len() > 0 && !all_labels(label_texts(res_list@), target_res@) ==> r == Err::<
            String,
            ErrorKind,
        >(ErrorKind::Format),
        res_list@.len() > 0 && all_labels(label_texts(res_list@), target_res@) ==> {
            &&& r.is_ok()
            &&& exists|k: int|
                is_first_closest(label_texts(res_list@), target_res@, k) && r.unwrap()@
                    == #[trigger] res_list@[k]@
        },
{
    match closest_index(res_list, target_res) {
        Ok(k) => {
            let chosen: &String = res_list[k];
            let r = chosen.clone();
            assert(r@ == res_list@[k as int]@);
            Ok(r)
        },
        Err(e) => Err(e),
    }
}

/// The labels of resolved (label, url) links.
pub open spec fn link_labels(links: Seq<(String, String)>) -> Seq<Seq<char>> {
    Seq::new(links.len(), |i: int| links[i].0@)
}

/// Picks the url to fetch among resolved (label, url) links: with a
/// preferred label, the url of the first label closest to it; with none,
/// the first link. No links fail with `EmptyCandidates`, a malformed label
/// with `Format`.
pub fn select_link(links: &Vec<(String, String)>, preferred: Option<&str>) -> (r: Result<
    String,
    ErrorKind,
>)
    ensures
        links@.len() == 0 ==> r == Err::<String, ErrorKind>(ErrorKind::EmptyCandidates),
        links@.len() > 0 && preferred is None ==> r is Ok && r->Ok_0@ == links@[0].1@,
        links@.len() > 0 && preferred is Some && !all_labels(
            link_labels(links@),
            preferred->Some_0@,
        ) ==> r == Err::<String, ErrorKind>(ErrorKind::Format),
        links@.len() > 0 && preferred is Some && all_labels(
            link_labels(links@),
            preferred->Some_0@,
        ) ==> {
            &&& r is Ok
            &&& exists|k: int|
                is_first_closest(link_labels(links@), preferred->Some_0@, k) && r->Ok_0@
                    == #[trigger] links@[k].1@
        },
{
    if links.len() == 0 {
        return Err(ErrorKind::EmptyCandidates);
    }
    match preferred {
        None => Ok(links[0].1.clone()),
        Some(p) => {
            let mut labels: Vec<&String> = Vec::new();
            let mut i: usize = 0;
            while i < links.len()
                invariant
                    i <= links@.len(),
                    labels@.len() == i,
                    forall|j: int| 0 <= j < i ==> #[trigger] labels@[j]@ == links@[j].0@,
                decreases links@.len() - i,
            {
                labels.push(&links[i].0);
                i = i + 1;
            }
            assert(label_texts(labels@) =~= link_labels(links@));
            match closest_index(labels.as_slice(), p) {
                Ok(k) => {
                    let r = links[k].1.clone();
                    assert(r@ == links@[k as int].1@);
                    Ok(r)
                },
                Err(e) => Err(e),
            }
        },
    }
}

} // verus!

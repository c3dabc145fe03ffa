//! The routing table: for each command topic, the names of the entities that
//! listen on it, in the order in which they were added.

use vstd::prelude::*;

use crate::json::texts;

verus! {

/// Command topics with the entity names routed to each.
pub open spec fn routes_view(m: Seq<(String, Vec<String>)>) -> Seq<(Seq<char>, Seq<Seq<char>>)> {
    m.map_values(|r: (String, Vec<String>)| (r.0@, texts(r.1@)))
}

/// `name` is routed to from `topic`.
pub open spec fn routed(map: Seq<(Seq<char>, Seq<Seq<char>>)>, topic: Seq<char>, name: Seq<char>) -> bool {
    exists|k: int| 0 <= k < map.len() && #[trigger] map[k].0 == topic && map[k].1.contains(name)
}

/// Each topic appears once, and each of its name lists is non-empty and
/// names an entity at most once.
pub open spec fn routes_well_formed(map: Seq<(Seq<char>, Seq<Seq<char>>)>) -> bool {
    &&& forall|k: int, l: int| 0 <= k < l < map.len() ==> map[k].0 != map[l].0
    &&& forall|k: int|
        0 <= k < map.len() ==> #[trigger] map[k].1.len() > 0 && map[k].1.no_duplicates()
}

/// Holds for every name but `n`.
pub open spec fn other_than(n: Seq<char>) -> spec_fn(Seq<char>) -> bool {
    |x: Seq<char>| x != n
}

/// The table without `n`, in the same order; topics left with no name are
/// dropped.
pub open spec fn unrouted(map: Seq<(Seq<char>, Seq<Seq<char>>)>, n: Seq<char>) -> Seq<
    (Seq<char>, Seq<Seq<char>>),
>
    decreases map.len(),
{
    if map.len() == 0 {
        map
    } else {
        let rest = unrouted(map.drop_last(), n);
        let kept = map.last().1.filter(other_than(n));
        if kept.len() > 0 {
            rest.push((map.last().0, kept))
        } else {
            rest
        }
    }
}

/// The table with `n` added at the end of the names of `topic`; a new topic
/// comes last.
pub open spec fn with_route(
    map: Seq<(Seq<char>, Seq<Seq<char>>)>,
    topic: Seq<char>,
    n: Seq<char>,
) -> Seq<(Seq<char>, Seq<Seq<char>>)> {
    if exists|k: int| 0 <= k < map.len() && #[trigger] map[k].0 == topic {
        map.map_values(
            |e: (Seq<char>, Seq<Seq<char>>)|
                if e.0 == topic {
                    (e.0, e.1.push(n))
                } else {
                    e
                },
        )
    } else {
        map.push((topic, seq![n]))
    }
}

proof fn lemma_filter_keeps_absent(s: Seq<Seq<char>>, n: Seq<char>)
    requires
        !s.contains(n),
    ensures
        s.filter(other_than(n)) == s,
    decreases s.len(),
{
    reveal(Seq::filter);
    if s.len() > 0 {
        assert(!s.drop_last().contains(n)) by {
            if s.drop_last().contains(n) {
                let j = choose|j: int| 0 <= j < s.drop_last().len() && s.drop_last()[j] == n;
                assert(s[j] == n);
            }
        };
        lemma_filter_keeps_absent(s.drop_last(), n);
        assert(s.last() != n) by {
            if s.last() == n {
                assert(s[s.len() - 1] == n);
            }
        };
        assert(s.drop_last().push(s.last()) =~= s);
    }
}

/// A table that routes `n` nowhere is left as it is by removing `n`.
pub proof fn lemma_unrouted_absent(map: Seq<(Seq<char>, Seq<Seq<char>>)>, n: Seq<char>)
    requires
        routes_well_formed(map),
        forall|t: Seq<char>| !(#[trigger] routed(map, t, n)),
    ensures
        unrouted(map, n) == map,
    decreases map.len(),
{
    if map.len() > 0 {
        let last = map.len() - 1;
        assert(routes_well_formed(map.drop_last())) by {
            assert forall|k: int| 0 <= k < map.drop_last().len() implies #[trigger] map.drop_last()[k].1.len() > 0
                && map.drop_last()[k].1.no_duplicates() by {
                assert(map.drop_last()[k] == map[k]);
            };
        };
        assert forall|t: Seq<char>| !(#[trigger] routed(map.drop_last(), t, n)) by {
            if routed(map.drop_last(), t, n) {
                let k = choose|k: int| 0 <= k < map.drop_last().len() && #[trigger] map.drop_last()[k].0 == t
                    && map.drop_last()[k].1.contains(n);
                assert(map[k] == map.drop_last()[k]);
                assert(routed(map, t, n));
            }
        };
        lemma_unrouted_absent(map.drop_last(), n);
        assert(!map[last].1.contains(n)) by {
            if map[last].1.contains(n) {
                assert(routed(map, map[last].0, n));
            }
        };
        lemma_filter_keeps_absent(map[last].1, n);
        assert(map[last].1.len() > 0);
        assert(map.drop_last().push(map.last()) =~= map);
    }
}

fn same_text(a: &String, b: &String) -> (r: bool)
    ensures
        r == (a@ == b@),
{
    *a == *b
}

/// `names` without `name`.
fn names_without(names: &Vec<String>, name: &String) -> (r: Vec<String>)
    requires
        texts(names@).no_duplicates(),
    ensures
        texts(r@) == texts(names@).filter(other_than(name@)),
        texts(r@).no_duplicates(),
        forall|m: Seq<char>|
            #[trigger] texts(r@).contains(m) <==> (texts(names@).contains(m) && m != name@),
{
    let mut kept: Vec<String> = Vec::new();
    let mut i: usize = 0;
    while i < names.len()
        invariant
            i <= names.len(),
            texts(names@).no_duplicates(),
            texts(kept@) == texts(names@.take(i as int)).filter(other_than(name@)),
            texts(kept@).no_duplicates(),
            forall|m: Seq<char>|
                #[trigger] texts(kept@).contains(m) <==> (texts(names@.take(i as int)).contains(m)
                    && m != name@),
        decreases names.len() - i,
    {
        let ghost before = texts(kept@);
        let ghost seen = texts(names@.take(i as int));
        let ghost next = texts(names@.take(i as int + 1));
        assert(next =~= seen.push(names@[i as int]@));
        proof {
            reveal(Seq::filter);
            assert(next.drop_last() =~= seen);
        }
        assert(!seen.contains(names@[i as int]@)) by {
            if seen.contains(names@[i as int]@) {
                let j = choose|j: int| 0 <= j < seen.len() && seen[j] == names@[i as int]@;
                assert(texts(names@)[j] == texts(names@)[i as int]);
            }
        };
        let ghost x = names@[i as int]@;
        if !same_text(&names[i], name) {
            kept.push(names[i].clone());
            assert(texts(kept@) =~= before.push(x));
            assert forall|a: int, b: int| 0 <= a < b < texts(kept@).len() implies texts(kept@)[a]
                != texts(kept@)[b] by {
                if b == before.len() {
                    assert(before[a] == texts(kept@)[a]);
                    if before[a] == x {
                        assert(before.contains(x));
                    }
                }
            };
        } else {
            assert(x == name@);
            assert(texts(kept@) == before);
        }
        let ghost now = texts(kept@);
        assert(now == before || (now == before.push(x) && x != name@));
        assert(now == before ==> x == name@);
        assert forall|m: Seq<char>| #[trigger] now.contains(m) <==> (next.contains(m) && m != name@) by {
            if next.contains(m) && m != name@ {
                let j = choose|j: int| 0 <= j < next.len() && next[j] == m;
                if j < seen.len() {
                    assert(seen[j] == m);
                    assert(seen.contains(m));
                    assert(before.contains(m));
                    let a = choose|a: int| 0 <= a < before.len() && before[a] == m;
                    assert(now[a] == m);
                } else {
                    assert(m == x);
                    assert(now[now.len() - 1] == m);
                }
            }
            if now.contains(m) {
                let a = choose|a: int| 0 <= a < now.len() && now[a] == m;
                if a < before.len() {
                    assert(before[a] == m);
                    assert(before.contains(m));
                    assert(seen.contains(m));
                    let j = choose|j: int| 0 <= j < seen.len() && seen[j] == m;
                    assert(next[j] == m);
                } else {
                    assert(m == x);
                    assert(next[i as int] == m);
                }
            }
        };
        i = i + 1;
    }
    assert(names@.take(names.len() as int) =~= names@);
    assert(texts(names@.take(names.len() as int)) =~= texts(names@));
    kept
}

/// The table without `name`; topics left with no name are dropped.
pub(crate) fn unroute(map: &Vec<(String, Vec<String>)>, name: &String) -> (r: Vec<
    (String, Vec<String>),
>)
    requires
        routes_well_formed(routes_view(map@)),
    ensures
        routes_view(r@) == unrouted(routes_view(map@), name@),
        routes_well_formed(routes_view(r@)),
        forall|t: Seq<char>, m: Seq<char>|
            #[trigger] routed(routes_view(r@), t, m) <==> (routed(routes_view(map@), t, m) && m
                != name@),
{
    let ghost full = routes_view(map@);
    let mut out: Vec<(String, Vec<String>)> = Vec::new();
    let mut k: usize = 0;
    while k < map.len()
        invariant
            k <= map.len(),
            full == routes_view(map@),
            routes_well_formed(full),
            routes_well_formed(routes_view(out@)),
            routes_view(out@) == unrouted(full.take(k as int), name@),
            forall|a: int|
                0 <= a < out@.len() ==> exists|b: int|
                    0 <= b < k && #[trigger] routes_view(out@)[a].0 == full[b].0,
            forall|t: Seq<char>, m: Seq<char>|
                #[trigger] routed(routes_view(out@), t, m) <==> (routed(full.take(k as int), t, m)
                    && m != name@),
        decreases map.len() - k,
    {
        let ghost before = routes_view(out@);
        assert(full.take(k as int + 1) =~= full.take(k as int).push(full[k as int]));
        assert(full.take(k as int + 1).drop_last() =~= full.take(k as int));
        assert(full[k as int].1 == texts(map@[k as int].1@));
        assert(full[k as int].1.len() > 0);
        let kept = names_without(&map[k].1, name);
        if kept.len() > 0 {
            let topic = map[k].0.clone();
            let ghost entry = (topic@, texts(kept@));
            out.push((topic, kept));
            assert(routes_view(out@) =~= before.push(entry));
            assert(routes_view(out@)[before.len() as int].1.len() > 0);
            assert forall|a: int| 0 <= a < before.len() implies routes_view(out@)[a].0 != entry.0 by {
                let b = choose|b: int| 0 <= b < k && before[a].0 == full[b].0;
                assert(full[b].0 != full[k as int].0);
            };
            assert(routes_well_formed(routes_view(out@))) by {
                let now = routes_view(out@);
                assert forall|a: int| 0 <= a < now.len() implies #[trigger] now[a].1.len() > 0
                    && now[a].1.no_duplicates() by {
                    if a < before.len() {
                        assert(now[a] == before[a]);
                    }
                };
                assert forall|a: int, b: int| 0 <= a < b < now.len() implies now[a].0 != now[b].0 by {
                    assert(now[a] == before[a]);
                    if b < before.len() {
                        assert(now[b] == before[b]);
                    }
                };
            };
        } else {
            assert(routes_view(out@) =~= before);
        }
        assert forall|a: int| 0 <= a < out@.len() implies exists|b: int|
            0 <= b < k + 1 && #[trigger] routes_view(out@)[a].0 == full[b].0 by {
            if a < before.len() {
                let b = choose|b: int| 0 <= b < k && before[a].0 == full[b].0;
                assert(routes_view(out@)[a].0 == full[b].0);
            } else {
                assert(routes_view(out@)[a].0 == full[k as int].0);
            }
        };
        assert forall|t: Seq<char>, m: Seq<char>|
            #[trigger] routed(routes_view(out@), t, m) <==> (routed(full.take(k as int + 1), t, m)
                && m != name@) by {
            let prefix = full.take(k as int);
            let grown = full.take(k as int + 1);
            if routed(routes_view(out@), t, m) {
                let a = choose|a: int|
                    0 <= a < routes_view(out@).len() && #[trigger] routes_view(out@)[a].0 == t
                        && routes_view(out@)[a].1.contains(m);
                if a < before.len() {
                    assert(routed(before, t, m));
                    let c = choose|c: int|
                        0 <= c < prefix.len() && #[trigger] prefix[c].0 == t && prefix[c].1.contains(m);
                    assert(grown[c] == prefix[c]);
                } else {
                    assert(grown[k as int].0 == t);
                }
            }
            if routed(grown, t, m) && m != name@ {
                let c = choose|c: int|
                    0 <= c < grown.len() && #[trigger] grown[c].0 == t && grown[c].1.contains(m);
                if c < k {
                    assert(prefix[c] == grown[c]);
                    assert(routed(prefix, t, m));
                    assert(routed(before, t, m));
                    let a = choose|a: int|
                        0 <= a < before.len() && #[trigger] before[a].0 == t && before[a].1.contains(m);
                    assert(routes_view(out@)[a] == before[a]);
                } else {
                    assert(texts(kept@).contains(m));
                    assert(routes_view(out@)[routes_view(out@).len() - 1].0 == t);
                }
            }
        };
        k = k + 1;
    }
    assert(full.take(map.len() as int) =~= full);
    out
}

/// The index of `topic` in the table, if it is there.
pub(crate) fn find_route(map: &Vec<(String, Vec<String>)>, topic: &String) -> (r: Option<usize>)
    ensures
        r matches Some(k) ==> k < map@.len() && routes_view(map@)[k as int].0 == topic@,
        r is None ==> forall|k: int|
            0 <= k < map@.len() ==> #[trigger] routes_view(map@)[k].0 != topic@,
{
    let mut k: usize = 0;
    while k < map.len()
        invariant
            k <= map.len(),
            forall|j: int| 0 <= j < k ==> #[trigger] routes_view(map@)[j].0 != topic@,
        decreases map.len() - k,
    {
        if same_text(&map[k].0, topic) {
            return Some(k);
        }
        k = k + 1;
    }
    None
}

/// Adds `name` at the end of the names routed from `topic`.
pub(crate) fn add_route(map: &mut Vec<(String, Vec<String>)>, topic: String, name: String)
    requires
        routes_well_formed(routes_view(old(map)@)),
        forall|t: Seq<char>| !(#[trigger] routed(routes_view(old(map)@), t, name@)),
    ensures
        routes_view(final(map)@) == with_route(routes_view(old(map)@), topic@, name@),
        routes_well_formed(routes_view(final(map)@)),
        forall|t: Seq<char>, m: Seq<char>|
            #[trigger] routed(routes_view(final(map)@), t, m) <==> (routed(
                routes_view(old(map)@),
                t,
                m,
            ) || (t == topic@ && m == name@)),
{
    let ghost old_view = routes_view(map@);
    let ghost entry_name = name@;
    match find_route(map, &topic) {
        Some(k) => {
            let (key, mut names) = map.remove(k);
            let ghost old_names = texts(names@);
            assert(old_view[k as int] == (key@, old_names));
            assert(old_view[k as int].1.len() > 0);
            assert(!old_names.contains(entry_name)) by {
                if old_names.contains(entry_name) {
                    assert(routed(old_view, key@, entry_name));
                }
            };
            names.push(name);
            assert(texts(names@) =~= old_names.push(entry_name));
            assert(texts(names@).no_duplicates()) by {
                assert forall|a: int, b: int| 0 <= a < b < texts(names@).len() implies texts(names@)[a]
                    != texts(names@)[b] by {
                    if b == old_names.len() {
                        assert(old_names[a] == texts(names@)[a]);
                        if old_names[a] == entry_name {
                            assert(old_names.contains(entry_name));
                        }
                    }
                };
            };
            map.insert(k, (key, names));
            let ghost new_view = routes_view(map@);
            assert(new_view =~= old_view.update(k as int, (topic@, old_names.push(entry_name))));
            assert(new_view =~= with_route(old_view, topic@, entry_name)) by {
                assert(old_view[k as int].0 == topic@);
                assert forall|a: int| 0 <= a < old_view.len() && a != k implies old_view[a].0 != topic@ by {
                    if a < k {
                        assert(old_view[a].0 != old_view[k as int].0);
                    } else {
                        assert(old_view[k as int].0 != old_view[a].0);
                    }
                };
            };
            assert(routes_well_formed(new_view)) by {
                assert forall|a: int| 0 <= a < new_view.len() implies #[trigger] new_view[a].1.len() > 0
                    && new_view[a].1.no_duplicates() by {
                    if a != k {
                        assert(new_view[a] == old_view[a]);
                    }
                };
                assert forall|a: int, b: int| 0 <= a < b < new_view.len() implies new_view[a].0
                    != new_view[b].0 by {
                    assert(new_view[a].0 == old_view[a].0);
                    assert(new_view[b].0 == old_view[b].0);
                };
            };
            assert forall|t: Seq<char>, m: Seq<char>|
                #[trigger] routed(new_view, t, m) <==> (routed(old_view, t, m) || (t == topic@ && m
                    == entry_name)) by {
                if routed(new_view, t, m) {
                    let a = choose|a: int|
                        0 <= a < new_view.len() && #[trigger] new_view[a].0 == t && new_view[a].1.contains(m);
                    if a != k {
                        assert(old_view[a] == new_view[a]);
                    } else if m == entry_name {
                        assert(t == topic@);
                    } else {
                        let j = choose|j: int|
                            0 <= j < new_view[a].1.len() && new_view[a].1[j] == m;
                        assert(j != old_names.len());
                        assert(old_names[j] == m);
                        assert(old_view[a].1.contains(m));
                        assert(old_view[a].0 == t);
                    }
                }
                if routed(old_view, t, m) {
                    let a = choose|a: int|
                        0 <= a < old_view.len() && #[trigger] old_view[a].0 == t && old_view[a].1.contains(m);
                    if a == k {
                        let j = choose|j: int| 0 <= j < old_names.len() && old_names[j] == m;
                        assert(new_view[a].1[j] == m);
                        assert(new_view[a].1.contains(m));
                        assert(new_view[a].0 == t);
                    } else {
                        assert(old_view[a] == new_view[a]);
                    }
                }
                if t == topic@ && m == entry_name {
                    assert(new_view[k as int].0 == t);
                    assert(new_view[k as int].1[old_names.len() as int] == m);
                    assert(new_view[k as int].1.contains(m));
                }
            };
        },
        None => {
            let mut names: Vec<String> = Vec::new();
            names.push(name);
            assert(texts(names@) =~= seq![entry_name]);
            let ghost topic_text = topic@;
            map.push((topic, names));
            let ghost new_view = routes_view(map@);
            assert(new_view =~= old_view.push((topic_text, seq![entry_name])));
            assert(new_view == with_route(old_view, topic_text, entry_name));
            assert(routes_well_formed(new_view)) by {
                assert forall|a: int| 0 <= a < new_view.len() implies #[trigger] new_view[a].1.len() > 0
                    && new_view[a].1.no_duplicates() by {
                    if a < old_view.len() {
                        assert(new_view[a] == old_view[a]);
                    }
                };
                assert forall|a: int, b: int| 0 <= a < b < new_view.len() implies new_view[a].0
                    != new_view[b].0 by {
                    assert(new_view[a] == old_view[a]);
                    if b < old_view.len() {
                        assert(new_view[b] == old_view[b]);
                    } else {
                        assert(old_view[a].0 != topic@);
                    }
                };
            };
            assert forall|t: Seq<char>, m: Seq<char>|
                #[trigger] routed(new_view, t, m) <==> (routed(old_view, t, m) || (t == topic_text
                    && m == entry_name)) by {
                if routed(new_view, t, m) {
                    let a = choose|a: int|
                        0 <= a < new_view.len() && #[trigger] new_view[a].0 == t && new_view[a].1.contains(m);
                    if a < old_view.len() {
                        assert(old_view[a] == new_view[a]);
                    } else {
                        assert(new_view[a].1 == seq![entry_name]);
                        let j = choose|j: int| 0 <= j < new_view[a].1.len() && new_view[a].1[j] == m;
                        assert(j == 0);
                        assert(m == entry_name);
                        assert(t == topic_text);
                    }
                }
                if routed(old_view, t, m) {
                    let a = choose|a: int|
                        0 <= a < old_view.len() && #[trigger] old_view[a].0 == t && old_view[a].1.contains(m);
                    assert(old_view[a] == new_view[a]);
                }
                if t == topic_text && m == entry_name {
                    let last = old_view.len() as int;
                    assert(new_view[last].0 == t);
                    assert(new_view[last].1[0] == m);
                    assert(new_view[last].1.contains(m));
                }
            };
        },
    }
}

} // verus!

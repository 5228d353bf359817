//! String-keyed lookup tables, and the command-line argument map.
use vstd::prelude::*;

verus! {

/// A table from string keys to values, where a later insertion of a key
/// replaces the earlier one.
///
/// Entries are kept in insertion order; the model is the map that results
/// from applying every insertion in turn, so each key has exactly one value.
pub struct StrMap<V> {
    entries: Vec<(String, V)>,
}

/// The map obtained by inserting each entry of `s` in order.
pub open spec fn map_of<V: DeepView>(s: Seq<(String, V)>) -> Map<Seq<char>, V::V>
    decreases s.len(),
{
    if s.len() == 0 {
        Map::empty()
    } else {
        map_of(s.drop_last()).insert(s.last().0@, s.last().1.deep_view())
    }
}

/// Entries at positions `i` and later do not carry key `k`, so the whole
/// table and its first `i` entries agree on `k`.
proof fn lemma_map_of_prefix<V: DeepView>(s: Seq<(String, V)>, i: int, k: Seq<char>)
    requires
        0 <= i <= s.len(),
        forall|j: int| i <= j < s.len() ==> s[j].0@ != k,
    ensures
        map_of(s).contains_key(k) == map_of(s.take(i)).contains_key(k),
        map_of(s).contains_key(k) ==> map_of(s)[k] == map_of(s.take(i))[k],
    decreases s.len(),
{
    if s.len() > i {
        assert(s.drop_last().take(i) =~= s.take(i));
        lemma_map_of_prefix(s.drop_last(), i, k);
    } else {
        assert(s.take(i) =~= s);
    }
}

impl<V: DeepView> View for StrMap<V> {
    type V = Map<Seq<char>, V::V>;

    closed spec fn view(&self) -> Map<Seq<char>, V::V> {
        map_of(self.entries@)
    }
}

impl<V: DeepView> StrMap<V> {
    /// An empty table.
    pub fn new() -> (r: Self)
        ensures
            r@ == Map::<Seq<char>, V::V>::empty(),
    {
        StrMap { entries: Vec::new() }
    }

    /// Sets `key` to `value`, replacing any earlier value of `key`.
    pub fn insert(&mut self, key: String, value: V)
        ensures
            final(self)@ == old(self)@.insert(key@, value.deep_view()),
    {
        let ghost before = self.entries@;
        self.entries.push((key, value));
        proof {
            assert(self.entries@.drop_last() =~= before);
        }
    }

    /// The value of `key`, if the table holds one.
    pub fn get(&self, key: &str) -> (r: Option<&V>)
        ensures
            r is Some == self@.contains_key(key@),
            r matches Some(v) ==> self@[key@] == v.deep_view(),
    {
        let wanted = key.to_owned();
        let mut i: usize = self.entries.len();
        while i > 0
            invariant
                i <= self.entries@.len(),
                wanted@ == key@,
                forall|j: int| i <= j < self.entries@.len() ==> self.entries@[j].0@ != key@,
            decreases i,
        {
            if self.entries[i - 1].0 == wanted {
                proof {
                    let s = self.entries@;
                    lemma_map_of_prefix(s, i as int, key@);
                    assert(s.take(i as int).drop_last() =~= s.take(i as int - 1));
                }
                return Some(&self.entries[i - 1].1);
            }
            i = i - 1;
        }
        proof {
            lemma_map_of_prefix(self.entries@, 0, key@);
            assert(self.entries@.take(0) =~= Seq::<(String, V)>::empty());
        }
        None
    }
}

/// The command-line argument map: flag name (without its `--`) to the value
/// that followed it, or `None` for a bare flag.
pub type ArgMap = StrMap<Option<String>>;

/// Whether a token is an argument marker: it begins with `--`.
pub open spec fn is_marker(t: Seq<char>) -> bool {
    t.len() >= 2 && t[0] == '-' && t[1] == '-'
}

/// The flag name of a marker: the token without its `--`.
pub open spec fn flag_name(t: Seq<char>) -> Seq<char> {
    t.subrange(2, t.len() as int)
}

/// The value of the marker at `i`: the next token, if there is one and it is
/// not itself a marker.
pub open spec fn flag_value(ts: Seq<Seq<char>>, i: int) -> Option<Seq<char>> {
    if i + 1 < ts.len() && !is_marker(ts[i + 1]) {
        Some(ts[i + 1])
    } else {
        None
    }
}

/// The argument map of the first `n` tokens, scanned left to right: each
/// marker sets its flag name to its value, a later marker of the same name
/// replacing an earlier one.
pub open spec fn arg_map_upto(ts: Seq<Seq<char>>, n: int) -> Map<Seq<char>, Option<Seq<char>>>
    decreases n,
{
    if n <= 0 {
        Map::empty()
    } else if is_marker(ts[n - 1]) {
        arg_map_upto(ts, n - 1).insert(flag_name(ts[n - 1]), flag_value(ts, n - 1))
    } else {
        arg_map_upto(ts, n - 1)
    }
}

/// The argument map of a whole token sequence.
pub open spec fn arg_map_spec(ts: Seq<Seq<char>>) -> Map<Seq<char>, Option<Seq<char>>> {
    arg_map_upto(ts, ts.len() as int)
}

/// The tokens as character sequences.
pub open spec fn tokens_view(args: Seq<String>) -> Seq<Seq<char>> {
    args.map_values(|a: String| a@)
}

proof fn lemma_upto_entries(ts: Seq<Seq<char>>, n: int)
    requires
        0 <= n <= ts.len(),
    ensures
        forall|k: Seq<char>| #[trigger]
            arg_map_upto(ts, n).contains_key(k) ==> exists|i: int|
                0 <= i < n && is_marker(ts[i]) && flag_name(ts[i]) == k && arg_map_upto(ts, n)[k]
                    == flag_value(ts, i),
    decreases n,
{
    if n > 0 {
        lemma_upto_entries(ts, n - 1);
        assert forall|k: Seq<char>| #[trigger]
            arg_map_upto(ts, n).contains_key(k) implies exists|i: int|
                0 <= i < n && is_marker(ts[i]) && flag_name(ts[i]) == k && arg_map_upto(ts, n)[k]
                    == flag_value(ts, i) by {
            if is_marker(ts[n - 1]) && flag_name(ts[n - 1]) == k {
                assert(arg_map_upto(ts, n)[k] == flag_value(ts, n - 1));
            } else {
                assert(arg_map_upto(ts, n - 1).contains_key(k));
                let i = choose|i: int|
                    0 <= i < n - 1 && is_marker(ts[i]) && flag_name(ts[i]) == k && arg_map_upto(
                        ts,
                        n - 1,
                    )[k] == flag_value(ts, i);
                assert(arg_map_upto(ts, n)[k] == arg_map_upto(ts, n - 1)[k]);
            }
        }
    }
}

/// Building an argument map cannot fail, and only markers make entries: every
/// key is the name of some marker token, and every value is the token right
/// after that marker, which is itself no marker. So a token that neither is
/// a marker nor follows one appears nowhere in the map.
pub proof fn lemma_entries_come_from_markers(ts: Seq<Seq<char>>)
    ensures
        forall|k: Seq<char>| #[trigger]
            arg_map_spec(ts).contains_key(k) ==> exists|i: int|
                0 <= i < ts.len() && is_marker(ts[i]) && flag_name(ts[i]) == k,
        forall|k: Seq<char>| #[trigger]
            arg_map_spec(ts).contains_key(k) && arg_map_spec(ts)[k] is Some ==> exists|i: int|
                0 <= i && i + 1 < ts.len() && is_marker(ts[i]) && flag_name(ts[i]) == k && ts[i
                    + 1] == arg_map_spec(ts)[k]->Some_0 && !is_marker(ts[i + 1]),
{
    lemma_upto_entries(ts, ts.len() as int);
    assert forall|k: Seq<char>| #[trigger]
        arg_map_spec(ts).contains_key(k) && arg_map_spec(ts)[k] is Some implies exists|i: int|
            0 <= i && i + 1 < ts.len() && is_marker(ts[i]) && flag_name(ts[i]) == k && ts[i + 1]
                == arg_map_spec(ts)[k]->Some_0 && !is_marker(ts[i + 1]) by {
        assert(arg_map_upto(ts, ts.len() as int).contains_key(k));
        let i = choose|i: int|
            0 <= i < ts.len() && is_marker(ts[i]) && flag_name(ts[i]) == k && arg_map_upto(
                ts,
                ts.len() as int,
            )[k] == flag_value(ts, i);
        assert(flag_value(ts, i) is Some);
    }
}

/// Whether `s` begins with `--`.
pub fn has_arg_prefix(s: &String) -> (r: bool)
    ensures
        r == is_marker(s@),
{
    let t = s.as_str();
    t.unicode_len() >= 2 && t.get_char(0) == '-' && t.get_char(1) == '-'
}

/// Builds the argument map of a token sequence: every token that begins with
/// `--` names a flag, whose value is the following token unless that token is
/// missing or is itself a marker. Other tokens add no entry.
pub fn build_arg_map_from_vec(args: Vec<String>) -> (r: ArgMap)
    ensures
        r@ == arg_map_spec(tokens_view(args@)),
{
    let ghost ts = tokens_view(args@);
    let mut arg_map: ArgMap = StrMap::new();
    let mut i: usize = 0;
    while i < args.len()
        invariant
            i <= args@.len(),
            ts == tokens_view(args@),
            arg_map@ == arg_map_upto(ts, i as int),
        decreases args@.len() - i,
    {
        if has_arg_prefix(&args[i]) {
            let t = args[i].as_str();
            let key = String::from_str(t.substring_char(2, t.unicode_len()));
            let value: Option<String> = if i + 1 < args.len() && !has_arg_prefix(&args[i + 1]) {
                Some(args[i + 1].clone())
            } else {
                None
            };
            assert(value.deep_view() == flag_value(ts, i as int));
            arg_map.insert(key, value);
        }
        i = i + 1;
    }
    arg_map
}

} // verus!

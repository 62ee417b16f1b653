//! A package as a plugin reports it: named fields in the order the plugin gave them.
use vstd::prelude::*;
use indexmap::IndexMap;
use vstd::std_specs::cmp::PartialEqSpecImpl;
use tabled::builder::Builder;
use tabled::Table;
use crate::table::{lemma_built_rows_pad_to_widest, lemma_widest_bounds, widest, pushed_rows, blanks, builder_build, builder_default, builder_push_record, builder_rows, builder_width, builder_with_capacity, built_rows, table_default, table_rows};
use crate::text::views;

verus! {

#[verifier::external_type_specification]
#[verifier::external_body]
#[verifier::reject_recursive_types(K)]
#[verifier::reject_recursive_types(V)]
#[verifier::reject_recursive_types(S)]
pub struct ExIndexMap<K, V, S>(IndexMap<K, V, S>);

/// The key-value pairs that an `IndexMap` holds, in its order.
pub uninterp spec fn index_map_entries(m: IndexMap<String, String>) -> Seq<(Seq<char>, Seq<char>)>;

/// The views of a sequence of string pairs.
pub open spec fn pair_views(v: Seq<(String, String)>) -> Seq<(Seq<char>, Seq<char>)> {
    v.map_values(|p: (String, String)| (p.0@, p.1@))
}

/// No key occurs twice.
pub open spec fn distinct_keys(e: Seq<(Seq<char>, Seq<char>)>) -> bool {
    forall|i: int, j: int| 0 <= i < j < e.len() ==> e[i].0 != e[j].0
}

/// The position of the entry with key `k`, if there is one (the first, should keys repeat).
pub open spec fn key_position(e: Seq<(Seq<char>, Seq<char>)>, k: Seq<char>) -> Option<int> {
    if exists|i: int| 0 <= i < e.len() && e[i].0 == k && forall|j: int| 0 <= j < i ==> e[j].0 != k {
        Some(choose|i: int| 0 <= i < e.len() && e[i].0 == k && forall|j: int| 0 <= j < i ==> e[j].0 != k)
    } else {
        None
    }
}

/// The entries after inserting `(k, v)`: an existing key keeps its place and takes the
/// new value; a new key goes last.
pub open spec fn insert_entry(e: Seq<(Seq<char>, Seq<char>)>, k: Seq<char>, v: Seq<char>) -> Seq<(Seq<char>, Seq<char>)> {
    match key_position(e, k) {
        Some(i) => e.update(i, (k, v)),
        None => e.push((k, v)),
    }
}

/// The entries of a map built by inserting `pairs` in order into an empty map.
pub open spec fn entries_from(pairs: Seq<(Seq<char>, Seq<char>)>) -> Seq<(Seq<char>, Seq<char>)>
    decreases pairs.len(),
{
    if pairs.len() == 0 {
        Seq::empty()
    } else {
        insert_entry(entries_from(pairs.drop_last()), pairs.last().0, pairs.last().1)
    }
}

/// Field names paired with values, as far as both go.
pub open spec fn zip_fields(fields: Seq<Seq<char>>, values: Seq<Seq<char>>) -> Seq<(Seq<char>, Seq<char>)> {
    Seq::new(
        if fields.len() <= values.len() { fields.len() } else { values.len() },
        |i: int| (fields[i], values[i]),
    )
}

/// The keys of entries, in order.
pub open spec fn entry_keys(e: Seq<(Seq<char>, Seq<char>)>) -> Seq<Seq<char>> {
    e.map_values(|p: (Seq<char>, Seq<char>)| p.0)
}

/// The values of entries, in order.
pub open spec fn entry_values(e: Seq<(Seq<char>, Seq<char>)>) -> Seq<Seq<char>> {
    e.map_values(|p: (Seq<char>, Seq<char>)| p.1)
}

/// Calls `IndexMap::from_iter`: inserts the pairs in order, so a repeated key keeps its
/// first place and takes its last value.
#[verifier::external_body]
fn index_map_from_pairs(pairs: Vec<(String, String)>) -> (m: IndexMap<String, String>)
    ensures
        index_map_entries(m) == entries_from(pair_views(pairs@)),
{
    pairs.into_iter().collect()
}

/// Calls `IndexMap::clone`: a map with the same entries in the same order.
#[verifier::external_body]
fn index_map_clone(m: &IndexMap<String, String>) -> (r: IndexMap<String, String>)
    ensures
        index_map_entries(r) == index_map_entries(*m),
{
    m.clone()
}

/// Calls `IndexMap::new`: an empty map.
#[verifier::external_body]
fn index_map_new() -> (m: IndexMap<String, String>)
    ensures
        index_map_entries(m) == Seq::<(Seq<char>, Seq<char>)>::empty(),
{
    IndexMap::new()
}

/// Calls `IndexMap::eq`: two maps are equal when they hold the same key-value pairs,
/// whatever their order.
#[verifier::external_body]
fn index_map_eq(a: &IndexMap<String, String>, b: &IndexMap<String, String>) -> (r: bool)
    ensures
        r == (index_map_entries(*a).to_set() == index_map_entries(*b).to_set()),
{
    a == b
}

/// Calls `IndexMap::get`: the value stored under `key`, if any.
#[verifier::external_body]
fn index_map_get<'a>(m: &'a IndexMap<String, String>, key: &str) -> (r: Option<&'a String>)
    ensures
        match key_position(index_map_entries(*m), key@) {
            Some(i) => r matches Some(v) && v@ == index_map_entries(*m)[i].1,
            None => r is None,
        },
{
    m.get(key)
}

/// Calls `IndexMap::len`: the number of entries.
#[verifier::external_body]
fn index_map_len(m: &IndexMap<String, String>) -> (n: usize)
    ensures
        n == index_map_entries(*m).len(),
{
    m.len()
}

/// Calls `IndexMap::iter`: the entries in order, copied out; an `IndexMap` never
/// holds a key twice.
#[verifier::external_body]
fn index_map_pairs(m: &IndexMap<String, String>) -> (r: Vec<(String, String)>)
    ensures
        pair_views(r@) == index_map_entries(*m),
        distinct_keys(pair_views(r@)),
{
    m.iter().map(|(k, v)| (k.clone(), v.clone())).collect()
}

/// A package: its fields, by name, in the order the plugin reported them.
#[derive(Debug)]
pub struct Package(IndexMap<String, String>);

impl View for Package {
    type V = Seq<(Seq<char>, Seq<char>)>;

    closed spec fn view(&self) -> Seq<(Seq<char>, Seq<char>)> {
        index_map_entries(self.0)
    }
}

/// Inserting keeps keys distinct.
proof fn lemma_insert_entry_distinct(e: Seq<(Seq<char>, Seq<char>)>, k: Seq<char>, v: Seq<char>)
    requires
        distinct_keys(e),
    ensures
        distinct_keys(insert_entry(e, k, v)),
        entry_keys(insert_entry(e, k, v)).contains(k),
{
    match key_position(e, k) {
        Some(i) => {
            assert(entry_keys(insert_entry(e, k, v))[i] == k);
        },
        None => {
            let r = insert_entry(e, k, v);
            assert forall|i: int, j: int| 0 <= i < j < r.len() implies r[i].0 != r[j].0 by {
                if j == e.len() && r[i].0 == k {
                    assert(exists|m: int| 0 <= m < e.len() && e[m].0 == k && forall|n: int| 0 <= n < m ==> e[n].0 != k) by {
                        lemma_first_with_key(e, k, i);
                    }
                }
            }
            assert(entry_keys(r)[e.len() as int] == k);
        },
    }
}

/// A key that occurs has a first occurrence.
proof fn lemma_first_with_key(e: Seq<(Seq<char>, Seq<char>)>, k: Seq<char>, i: int)
    requires
        0 <= i < e.len(),
        e[i].0 == k,
    ensures
        exists|m: int| 0 <= m < e.len() && e[m].0 == k && forall|n: int| 0 <= n < m ==> e[n].0 != k,
    decreases i,
{
    if exists|n: int| 0 <= n < i && e[n].0 == k {
        let n = choose|n: int| 0 <= n < i && e[n].0 == k;
        lemma_first_with_key(e, k, n);
    } else {
        assert(forall|n: int| 0 <= n < i ==> e[n].0 != k);
    }
}

/// Entries built by insertion never repeat a key.
pub proof fn lemma_entries_from_distinct(pairs: Seq<(Seq<char>, Seq<char>)>)
    ensures
        distinct_keys(entries_from(pairs)),
    decreases pairs.len(),
{
    if pairs.len() > 0 {
        lemma_entries_from_distinct(pairs.drop_last());
        lemma_insert_entry_distinct(entries_from(pairs.drop_last()), pairs.last().0, pairs.last().1);
    }
}

/// When no name repeats, a package holds exactly the pairs it was built from, in order.
pub proof fn lemma_entries_from_distinct_pairs(pairs: Seq<(Seq<char>, Seq<char>)>)
    requires
        distinct_keys(pairs),
    ensures
        entries_from(pairs) == pairs,
    decreases pairs.len(),
{
    if pairs.len() > 0 {
        let prev = pairs.drop_last();
        assert(distinct_keys(prev));
        lemma_entries_from_distinct_pairs(prev);
        let k = pairs.last().0;
        assert(!exists|i: int| 0 <= i < prev.len() && prev[i].0 == k && forall|j: int| 0 <= j < i ==> prev[j].0 != k) by {
            assert forall|i: int| 0 <= i < prev.len() implies prev[i].0 != k by {
                assert(pairs[i].0 != pairs[pairs.len() - 1].0);
            }
        }
        assert(prev.push(pairs.last()) =~= pairs);
    }
}

impl Clone for Package {
    fn clone(&self) -> (p: Self)
        ensures
            p@ == self@,
    {
        Package(index_map_clone(&self.0))
    }
}

impl Default for Package {
    fn default() -> (p: Self)
        ensures
            p@ == Seq::<(Seq<char>, Seq<char>)>::empty(),
    {
        Package(index_map_new())
    }
}

impl PartialEq for Package {
    fn eq(&self, other: &Self) -> (r: bool) {
        index_map_eq(&self.0, &other.0)
    }
}

impl PartialEqSpecImpl for Package {
    open spec fn obeys_eq_spec() -> bool {
        true
    }

    /// Two packages are equal when they have the same fields with the same values,
    /// whatever their order.
    open spec fn eq_spec(&self, other: &Self) -> bool {
        self@.to_set() == other@.to_set()
    }
}

impl Eq for Package {}

impl Package {
    /// A package with the given fields.
    pub fn new(fields: IndexMap<String, String>) -> (p: Package)
        ensures
            p@ == index_map_entries(fields),
    {
        Package(fields)
    }

    /// A package whose fields pair each name in `fields` with the value at the same place
    /// in `values`, as far as both go; a repeated name keeps its first place and its last value.
    pub fn from_fields(fields: &Vec<String>, values: &Vec<String>) -> (p: Package)
        ensures
            p@ == entries_from(zip_fields(views(fields@), views(values@))),
    {
        let n = if fields.len() <= values.len() { fields.len() } else { values.len() };
        let mut pairs: Vec<(String, String)> = Vec::new();
        let mut i: usize = 0;
        while i < n
            invariant
                n <= fields.len(),
                n <= values.len(),
                n == fields.len() || n == values.len(),
                i <= n,
                pair_views(pairs@) == zip_fields(views(fields@), views(values@)).take(i as int),
            decreases n - i,
        {
            let ghost before = pairs@;
            let f = fields[i].clone();
            let v = values[i].clone();
            pairs.push((f, v));
            assert(pairs@ == before.push((f, v)));
            assert(pair_views(pairs@) =~= pair_views(before).push((f@, v@)));
            assert(pair_views(pairs@) =~= zip_fields(views(fields@), views(values@)).take((i + 1) as int));
            i = i + 1;
        }
        assert(zip_fields(views(fields@), views(values@)).take(n as int) =~= zip_fields(views(fields@), views(values@)));
        Package(index_map_from_pairs(pairs))
    }

    /// The value of field `key`, if the package has it.
    pub fn get(&self, key: &str) -> (r: Option<&String>)
        ensures
            match key_position(self@, key@) {
                Some(i) => r matches Some(v) && v@ == self@[i].1,
                None => r is None,
            },
    {
        index_map_get(&self.0, key)
    }

    /// The number of fields.
    pub fn len(&self) -> (n: usize)
        ensures
            n == self@.len(),
    {
        index_map_len(&self.0)
    }

    /// The fields as name-value pairs, in order; no name occurs twice.
    pub fn entries(&self) -> (r: Vec<(String, String)>)
        ensures
            pair_views(r@) == self@,
            distinct_keys(self@),
    {
        index_map_pairs(&self.0)
    }

    /// The field names, in order.
    pub fn keys(&self) -> (r: Vec<String>)
        ensures
            views(r@) == entry_keys(self@),
    {
        let pairs = self.entries();
        let mut r: Vec<String> = Vec::new();
        let mut i: usize = 0;
        while i < pairs.len()
            invariant
                i <= pairs.len(),
                pair_views(pairs@) == self@,
                views(r@) == entry_keys(self@).take(i as int),
            decreases pairs.len() - i,
        {
            let ghost before = r@;
            let x = pairs[i].0.clone();
            r.push(x);
            assert(r@ == before.push(x));
            assert(x@ == pair_views(pairs@)[i as int].0);
            assert(views(r@) =~= views(before).push(x@));
            assert(views(r@) =~= entry_keys(self@).take((i + 1) as int));
            i = i + 1;
        }
        assert(entry_keys(self@).take(pairs.len() as int) =~= entry_keys(self@));
        r
    }

    /// The field values, in order.
    pub fn values(&self) -> (r: Vec<String>)
        ensures
            views(r@) == entry_values(self@),
    {
        let pairs = self.entries();
        let mut r: Vec<String> = Vec::new();
        let mut i: usize = 0;
        while i < pairs.len()
            invariant
                i <= pairs.len(),
                pair_views(pairs@) == self@,
                views(r@) == entry_values(self@).take(i as int),
            decreases pairs.len() - i,
        {
            let ghost before = r@;
            let x = pairs[i].1.clone();
            r.push(x);
            assert(r@ == before.push(x));
            assert(x@ == pair_views(pairs@)[i as int].1);
            assert(views(r@) =~= views(before).push(x@));
            assert(views(r@) =~= entry_values(self@).take((i + 1) as int));
            i = i + 1;
        }
        assert(entry_values(self@).take(pairs.len() as int) =~= entry_values(self@));
        r
    }

    /// A table listing `packages`: a heading row with the field names of the first package,
    /// then one row per package with its values; no rows at all when there is no package.
    pub fn list_into_tab(packages: Vec<Package>) -> (t: Table)
        ensures
            table_rows(t) == built_rows(listing_records(package_views(packages@))).0,
    {
        if packages.len() == 0 {
            assert(listing_records(package_views(packages@)) =~= Seq::<Seq<Seq<char>>>::empty());
            return table_default();
        }
        let mut b: Builder = builder_default();
        let heading = packages[0].keys();
        builder_push_record(&mut b, heading);
        let ghost ps = package_views(packages@);
        assert(ps[0] == packages@[0]@);
        assert(listing_records(ps).take(1) =~= seq![entry_keys(ps[0])]);
        assert(seq![entry_keys(ps[0])].drop_last() =~= Seq::<Seq<Seq<char>>>::empty());
        assert(Seq::<Seq<Seq<char>>>::empty().map_values(|r: Seq<Seq<char>>| r + blanks(entry_keys(ps[0]).len() as int)) =~= Seq::<Seq<Seq<char>>>::empty());
        assert(entry_keys(ps[0]) + blanks(0) =~= entry_keys(ps[0]));
        let ghost r1 = listing_records(ps).take(1);
        assert(r1.drop_last() =~= Seq::<Seq<Seq<char>>>::empty());
        assert(r1.last() == entry_keys(ps[0]));
        assert(built_rows(r1.drop_last()) == (Seq::<Seq<Seq<char>>>::empty(), 0int));
        assert(built_rows(r1) == pushed_rows(Seq::<Seq<Seq<char>>>::empty(), 0, entry_keys(ps[0])));
        let mut i: usize = 0;
        while i < packages.len()
            invariant
                i <= packages.len(),
                ps == package_views(packages@),
                packages.len() > 0,
                builder_rows(b) == built_rows(listing_records(ps).take(i + 1)).0,
                builder_width(b) == built_rows(listing_records(ps).take(i + 1)).1,
            decreases packages.len() - i,
        {
            let row = packages[i].values();
            assert(ps[i as int] == packages@[i as int]@);
            builder_push_record(&mut b, row);
            assert(listing_records(ps).take(i + 2).drop_last() =~= listing_records(ps).take(i + 1));
            assert(listing_records(ps).take(i + 2).last() == entry_values(ps[i as int]));
            i = i + 1;
        }
        assert(listing_records(ps).take(packages.len() + 1) =~= listing_records(ps));
        builder_build(b)
    }

    /// A two-column table with one row per field: its name, then its value.
    pub fn into_tab(self) -> (t: Table)
        ensures
            table_rows(t) == field_rows(self@),
            table_rows(t).len() == self@.len(),
            forall|i: int| 0 <= i < self@.len() ==> #[trigger] table_rows(t)[i] == seq![self@[i].0, self@[i].1],
    {
        proof { lemma_field_rows(self@); }
        let pairs = self.entries();
        let mut b: Builder = builder_with_capacity(self.len(), 2);
        let mut i: usize = 0;
        while i < pairs.len()
            invariant
                i <= pairs.len(),
                pair_views(pairs@) == self@,
                builder_rows(b) == field_rows(self@).take(i as int),
                builder_width(b) == 2,
            decreases pairs.len() - i,
        {
            let mut row: Vec<String> = Vec::new();
            row.push(pairs[i].0.clone());
            row.push(pairs[i].1.clone());
            let ghost before = builder_rows(b);
            builder_push_record(&mut b, row);
            assert(blanks(0) =~= Seq::<Seq<char>>::empty());
            assert(views(row@) =~= seq![self@[i as int].0, self@[i as int].1]);
            assert(before.map_values(|r: Seq<Seq<char>>| r + blanks(2 - 2)) =~= before) by {
                assert forall|j: int| 0 <= j < before.len() implies before[j] + blanks(0) == before[j] by {
                    assert(before[j] + blanks(0) =~= before[j]);
                }
            }
            assert(builder_rows(b) =~= field_rows(self@).take((i + 1) as int));
            i = i + 1;
        }
        assert(field_rows(self@).take(pairs.len() as int) =~= field_rows(self@));
        builder_build(b)
    }
}

/// The views of a sequence of packages.
pub open spec fn package_views(ps: Seq<Package>) -> Seq<Seq<(Seq<char>, Seq<char>)>> {
    ps.map_values(|p: Package| p@)
}

/// The records of a package listing: the field names of the first package, then the
/// values of each package.
pub open spec fn listing_records(ps: Seq<Seq<(Seq<char>, Seq<char>)>>) -> Seq<Seq<Seq<char>>> {
    if ps.len() == 0 {
        Seq::empty()
    } else {
        seq![entry_keys(ps[0])] + ps.map_values(|p: Seq<(Seq<char>, Seq<char>)>| entry_values(p))
    }
}

/// A listing table has a heading row and one row per package, all equally wide: the
/// heading starts with the first package's field names, and each later row with the
/// values of its package.
pub proof fn lemma_listing_shape(ps: Seq<Seq<(Seq<char>, Seq<char>)>>)
    requires
        ps.len() > 0,
    ensures
        built_rows(listing_records(ps)).0.len() == ps.len() + 1,
        built_rows(listing_records(ps)).0[0].take(ps[0].len() as int) == entry_keys(ps[0]),
        forall|i: int| 0 <= i < ps.len() ==>
            #[trigger] built_rows(listing_records(ps)).0[i + 1].take(ps[i].len() as int) == entry_values(ps[i]),
        forall|i: int| 0 <= i <= ps.len() ==>
            #[trigger] built_rows(listing_records(ps)).0[i].len() == widest(listing_records(ps)),
{
    let recs = listing_records(ps);
    lemma_built_rows_pad_to_widest(recs);
    lemma_widest_bounds(recs);
    let rows = built_rows(recs).0;
    assert(recs[0] == entry_keys(ps[0]));
    assert(rows[0] == recs[0] + blanks(widest(recs) - recs[0].len()));
    assert(rows[0].take(ps[0].len() as int) =~= entry_keys(ps[0]));
    assert forall|i: int| 0 <= i < ps.len() implies
        #[trigger] rows[i + 1].take(ps[i].len() as int) == entry_values(ps[i]) by {
        assert(recs[i + 1] == entry_values(ps[i]));
        assert(rows[i + 1] == recs[i + 1] + blanks(widest(recs) - recs[i + 1].len()));
        assert(rows[i + 1].take(ps[i].len() as int) =~= entry_values(ps[i]));
    }
    assert forall|i: int| 0 <= i <= ps.len() implies #[trigger] rows[i].len() == widest(recs) by {
        assert(rows[i] == recs[i] + blanks(widest(recs) - recs[i].len()));
    }
}

/// One row per field: its name, then its value.
pub open spec fn field_rows(e: Seq<(Seq<char>, Seq<char>)>) -> Seq<Seq<Seq<char>>> {
    e.map_values(|p: (Seq<char>, Seq<char>)| seq![p.0, p.1])
}

/// A package's table has one row per field, in the fields' order: the field's name, then
/// its value.
pub proof fn lemma_field_rows(e: Seq<(Seq<char>, Seq<char>)>)
    ensures
        field_rows(e).len() == e.len(),
        forall|i: int| 0 <= i < e.len() ==> #[trigger] field_rows(e)[i] == seq![e[i].0, e[i].1],
{
}

} // verus!

//! Translated names of items, tiles, categories, scripts, GUI strings and
//! research, with the fallbacks for an unknown id ("unnamed") and for no id
//! ("none").
use vstd::prelude::*;

verus! {

/// Names by id, kept in a hashbrown map.
#[verifier::external_body]
pub struct NameTable {
    inner: hashbrown::HashMap<u64, String>,
}

/// What a name table holds: the name of each id in it.
pub uninterp spec fn names_of(t: NameTable) -> Map<u64, Seq<char>>;

impl NameTable {
    /// Relies on hashbrown's `HashMap::new`: a map with no entry.
    #[verifier::external_body]
    fn empty() -> (r: NameTable)
        ensures
            forall|k: u64| !names_of(r).contains_key(k),
    {
        NameTable { inner: hashbrown::HashMap::new() }
    }

    /// Relies on hashbrown's `HashMap::insert`: afterwards `id` maps to `name`,
    /// replacing the value it had, and every other entry stays.
    #[verifier::external_body]
    fn put(&mut self, id: u64, name: String)
        ensures
            names_of(*final(self)) == names_of(*old(self)).insert(id, name@),
    {
        self.inner.insert(id, name);
    }

    /// Relies on hashbrown's `HashMap::get`: the value of a present key, `None`
    /// for an absent one.
    #[verifier::external_body]
    fn find(&self, id: u64) -> (r: Option<&String>)
        ensures
            match r {
                Some(s) => names_of(*self).contains_key(id) && names_of(*self)[id] == s@,
                None => !names_of(*self).contains_key(id),
            },
    {
        self.inner.get(&id)
    }

    /// A table of the given names; for an id given twice the later name wins.
    pub fn from_entries(entries: Vec<(u64, String)>) -> (r: NameTable)
        ensures
            names_of(r) =~= names_from(entries@, entries.len() as nat),
    {
        let mut t = NameTable::empty();
        assert(names_of(t) =~= Map::<u64, Seq<char>>::empty());
        let n = entries.len();
        let mut i: usize = 0;
        while i < n
            invariant
                n == entries.len(),
                i <= n,
                names_of(t) =~= names_from(entries@, i as nat),
            decreases n - i,
        {
            let name = entries[i].1.clone();
            t.put(entries[i].0, name);
            i = i + 1;
        }
        t
    }

    /// The name of `id`, or `unnamed` when the table lacks it.
    pub fn name_or(&self, id: u64, unnamed: &String) -> (r: String)
        ensures
            r@ == name_in(names_of(*self), unnamed@, id),
    {
        match self.find(id) {
            Some(name) => name.clone(),
            None => unnamed.clone(),
        }
    }
}

/// The names of the first `n` entries, a later entry for an id replacing an
/// earlier one.
pub open spec fn names_from(entries: Seq<(u64, String)>, n: nat) -> Map<u64, Seq<char>>
    decreases n,
{
    if n == 0 {
        Map::empty()
    } else {
        names_from(entries, (n - 1) as nat).insert(entries[n - 1].0, entries[n - 1].1@)
    }
}

/// One language's translations, keyed by id.
pub struct TranslateDef {
    pub none: String,
    pub unnamed: String,
    pub items: NameTable,
    pub tiles: NameTable,
    pub categories: NameTable,
    pub scripts: NameTable,
    pub gui: NameTable,
    pub error: NameTable,
    pub research: NameTable,
    pub keys: NameTable,
}

/// The resources the renderer and the GUI look names up in.
pub struct ResourceManager {
    pub translates: TranslateDef,
}

/// The name of `id` in `table`, or `unnamed` when the table lacks it.
pub open spec fn name_in(table: Map<u64, Seq<char>>, unnamed: Seq<char>, id: u64) -> Seq<char> {
    if table.contains_key(id) {
        table[id]
    } else {
        unnamed
    }
}

impl TranslateDef {
    /// Tables with no entry; `none` and `unnamed` as given.
    pub fn new(none: String, unnamed: String) -> (r: TranslateDef)
        ensures
            r.none@ == none@,
            r.unnamed@ == unnamed@,
            names_of(r.items) == Map::<u64, Seq<char>>::empty(),
            names_of(r.tiles) == Map::<u64, Seq<char>>::empty(),
            names_of(r.categories) == Map::<u64, Seq<char>>::empty(),
            names_of(r.scripts) == Map::<u64, Seq<char>>::empty(),
            names_of(r.gui) == Map::<u64, Seq<char>>::empty(),
            names_of(r.error) == Map::<u64, Seq<char>>::empty(),
            names_of(r.research) == Map::<u64, Seq<char>>::empty(),
            names_of(r.keys) == Map::<u64, Seq<char>>::empty(),
    {
        TranslateDef {
            none,
            unnamed,
            items: NameTable::empty(),
            tiles: NameTable::empty(),
            categories: NameTable::empty(),
            scripts: NameTable::empty(),
            gui: NameTable::empty(),
            error: NameTable::empty(),
            research: NameTable::empty(),
            keys: NameTable::empty(),
        }
    }
}

impl ResourceManager {
    pub fn item_name(&self, id: u64) -> (r: String)
        ensures
            r@ == name_in(names_of(self.translates.items), self.translates.unnamed@, id),
    {
        self.translates.items.name_or(id, &self.translates.unnamed)
    }

    /// The item name of `id`, or `none` when there is no id.
    pub fn try_item_name(&self, id: Option<u64>) -> (r: String)
        ensures
            r@ == match id {
                Some(i) => name_in(names_of(self.translates.items), self.translates.unnamed@, i),
                None => self.translates.none@,
            },
    {
        match id {
            Some(i) => self.item_name(i),
            None => self.translates.none.clone(),
        }
    }

    pub fn script_name(&self, id: u64) -> (r: String)
        ensures
            r@ == name_in(names_of(self.translates.scripts), self.translates.unnamed@, id),
    {
        self.translates.scripts.name_or(id, &self.translates.unnamed)
    }

    /// For an id this gives the item name of that id; `none` when there is no
    /// id.
    pub fn try_script_name(&self, id: Option<u64>) -> (r: String)
        ensures
            r@ == match id {
                Some(i) => name_in(names_of(self.translates.items), self.translates.unnamed@, i),
                None => self.translates.none@,
            },
    {
        match id {
            Some(i) => self.item_name(i),
            None => self.translates.none.clone(),
        }
    }

    pub fn tile_name(&self, id: u64) -> (r: String)
        ensures
            r@ == name_in(names_of(self.translates.tiles), self.translates.unnamed@, id),
    {
        self.translates.tiles.name_or(id, &self.translates.unnamed)
    }

    pub fn try_tile_name(&self, id: Option<u64>) -> (r: String)
        ensures
            r@ == match id {
                Some(i) => name_in(names_of(self.translates.tiles), self.translates.unnamed@, i),
                None => self.translates.none@,
            },
    {
        match id {
            Some(i) => self.tile_name(i),
            None => self.translates.none.clone(),
        }
    }

    pub fn category_name(&self, id: u64) -> (r: String)
        ensures
            r@ == name_in(names_of(self.translates.categories), self.translates.unnamed@, id),
    {
        self.translates.categories.name_or(id, &self.translates.unnamed)
    }

    pub fn try_category_name(&self, id: Option<u64>) -> (r: String)
        ensures
            r@ == match id {
                Some(i) => name_in(names_of(self.translates.categories), self.translates.unnamed@, i),
                None => self.translates.none@,
            },
    {
        match id {
            Some(i) => self.category_name(i),
            None => self.translates.none.clone(),
        }
    }

    pub fn gui_str(&self, id: u64) -> (r: String)
        ensures
            r@ == name_in(names_of(self.translates.gui), self.translates.unnamed@, id),
    {
        self.translates.gui.name_or(id, &self.translates.unnamed)
    }

    pub fn research_str(&self, id: u64) -> (r: String)
        ensures
            r@ == name_in(names_of(self.translates.research), self.translates.unnamed@, id),
    {
        self.translates.research.name_or(id, &self.translates.unnamed)
    }
}

} // verus!

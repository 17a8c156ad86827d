//! Suppliers of asset bytes for pack building, looked up by asset id.

use vstd::prelude::*;

use crate::table::{lemma_lists_empty, lemma_lists_insert, lemma_lists_position, lemma_lists_replace, lists};
use crate::text::{lex_lt, str_equal, str_less};

verus! {

/// A lookup that found no bytes, or a failing backing store.
#[derive(Debug, PartialEq, Eq)]
pub enum AssetSupplierError {
    /// No bytes available for the requested asset id.
    NotFound(String),
    /// The backing store failed to read.
    Io { asset_id: String, message: String },
}

/// Supplier that errors on every request.
#[derive(Debug, Default, Clone, Copy)]
pub struct NoAssetSupplier;

impl NoAssetSupplier {
    /// Every lookup fails as not found.
    pub fn provide(&self, asset_id: &str) -> (r: Result<Vec<u8>, AssetSupplierError>)
        ensures
            r matches Err(AssetSupplierError::NotFound(id)) && id@ == asset_id@,
    {
        Err(AssetSupplierError::NotFound(String::from_str(asset_id)))
    }
}

/// One asset's bytes.
#[derive(Debug)]
pub struct AssetEntry {
    pub asset_id: String,
    pub bytes: Vec<u8>,
}

pub type EntryView = (Seq<char>, Seq<u8>);

pub open spec fn entry_key() -> spec_fn(EntryView) -> Seq<char> {
    |e: EntryView| e.0
}

pub open spec fn entries_view(v: Seq<AssetEntry>) -> Seq<EntryView> {
    v.map_values(|e: AssetEntry| (e.asset_id@, e.bytes@))
}

/// In-memory supplier: asset bytes keyed by asset id.
pub struct MapAssetSupplier {
    entries: Vec<AssetEntry>,
    contents: Ghost<Map<Seq<char>, EntryView>>,
}

impl MapAssetSupplier {
    #[verifier::type_invariant]
    spec fn well_formed(self) -> bool {
        lists(entries_view(self.entries@), entry_key(), self.contents@)
    }

    /// The asset bytes by asset id.
    pub closed spec fn contents(self) -> Map<Seq<char>, Seq<u8>> {
        self.contents@.map_values(|e: EntryView| e.1)
    }

    /// An empty supplier.
    pub fn new() -> (r: Self)
        ensures
            r.contents() == Map::<Seq<char>, Seq<u8>>::empty(),
    {
        proof {
            lemma_lists_empty(entry_key());
        }
        let r = MapAssetSupplier { entries: Vec::new(), contents: Ghost(Map::empty()) };
        assert(entries_view(r.entries@) =~= Seq::<EntryView>::empty());
        assert(r.contents() =~= Map::<Seq<char>, Seq<u8>>::empty());
        r
    }

    /// The supplier with one asset's bytes added (replacing earlier bytes).
    pub fn with(self, asset_id: String, bytes: Vec<u8>) -> (r: Self)
        ensures
            r.contents() == self.contents().insert(asset_id@, bytes@),
    {
        proof {
            use_type_invariant(&self);
        }
        let MapAssetSupplier { entries, contents } = self;
        let mut entries = entries;
        let ghost m = contents@;
        let ghost t = entries_view(entries@);
        let ghost v: EntryView = (asset_id@, bytes@);
        let p = entry_position(&entries, asset_id.as_str());
        assert forall|i: int| 0 <= i < p implies lex_lt(#[trigger] entry_key()(t[i]), entry_key()(v)) by {
            assert(lex_lt(entries@[i].asset_id@, asset_id@));
        }
        proof {
            if p < entries.len() {
                assert(entry_key()(t[p as int]) == entries@[p as int].asset_id@);
            }
            lemma_lists_position(t, entry_key(), m, p as int, asset_id@);
        }
        let found = p < entries.len() && str_equal(entries[p].asset_id.as_str(), asset_id.as_str());
        let entry = AssetEntry { asset_id, bytes };
        if found {
            entries.set(p, entry);
            proof {
                lemma_lists_replace(t, entry_key(), m, p as int, v);
                assert(entries_view(entries@) =~= t.update(p as int, v));
            }
        } else {
            entries.insert(p, entry);
            proof {
                lemma_lists_insert(t, entry_key(), m, p as int, v);
                assert(entries_view(entries@) =~= t.insert(p as int, v));
            }
        }
        let r = MapAssetSupplier { entries, contents: Ghost(m.insert(v.0, v)) };
        assert(r.contents() =~= m.map_values(|e: EntryView| e.1).insert(v.0, v.1));
        r
    }

    /// The bytes of an asset, or not found.
    pub fn provide(&self, asset_id: &str) -> (r: Result<Vec<u8>, AssetSupplierError>)
        ensures
            self.contents().contains_key(asset_id@) ==> (r matches Ok(b) && b@ == self.contents()[asset_id@]),
            !self.contents().contains_key(asset_id@) ==> (r matches Err(AssetSupplierError::NotFound(id)) && id@
                == asset_id@),
    {
        proof {
            use_type_invariant(self);
        }
        let ghost t = entries_view(self.entries@);
        let ghost m = self.contents@;
        let p = entry_position(&self.entries, asset_id);
        assert forall|i: int| 0 <= i < p implies lex_lt(#[trigger] entry_key()(t[i]), asset_id@) by {
            assert(lex_lt(self.entries@[i].asset_id@, asset_id@));
        }
        proof {
            if p < self.entries.len() {
                assert(entry_key()(t[p as int]) == self.entries@[p as int].asset_id@);
            }
            lemma_lists_position(t, entry_key(), m, p as int, asset_id@);
        }
        if p < self.entries.len() && str_equal(self.entries[p].asset_id.as_str(), asset_id) {
            let b = copy_bytes(&self.entries[p].bytes);
            assert(t[p as int].1 == self.entries@[p as int].bytes@);
            Ok(b)
        } else {
            Err(AssetSupplierError::NotFound(String::from_str(asset_id)))
        }
    }
}

/// A copy of some bytes.
fn copy_bytes(v: &Vec<u8>) -> (r: Vec<u8>)
    ensures
        r@ == v@,
{
    let mut out: Vec<u8> = Vec::new();
    let mut i: usize = 0;
    while i < v.len()
        invariant
            i <= v.len(),
            out@ == v@.take(i as int),
        decreases v.len() - i,
    {
        out.push(v[i]);
        assert(out@ =~= v@.take(i + 1));
        i = i + 1;
    }
    assert(out@ =~= v@);
    out
}

/// First position whose asset id is not below `id`.
fn entry_position(items: &Vec<AssetEntry>, id: &str) -> (p: usize)
    ensures
        p <= items.len(),
        forall|i: int| 0 <= i < p ==> lex_lt(#[trigger] items@[i].asset_id@, id@),
        p < items.len() ==> !lex_lt(items@[p as int].asset_id@, id@),
{
    let mut p: usize = 0;
    while p < items.len()
        invariant
            p <= items.len(),
            forall|i: int| 0 <= i < p ==> lex_lt(#[trigger] items@[i].asset_id@, id@),
        decreases items.len() - p,
    {
        if !str_less(items[p].asset_id.as_str(), id) {
            return p;
        }
        p = p + 1;
    }
    p
}

/// Supplier that reads asset bytes from files under a base directory.
#[derive(Debug, Clone)]
pub struct FsAssetSupplier {
    /// Root directory containing the asset files.
    pub base_dir: String,
}

/// How reading an asset's file failed.
#[derive(Debug, PartialEq, Eq)]
pub enum AssetReadFailure {
    /// The file does not exist.
    NotFound,
    /// Any other read failure, with its description.
    Other(String),
}

impl FsAssetSupplier {
    /// A supplier rooted at `base_dir`.
    pub fn new(base_dir: String) -> (r: Self)
        ensures
            r.base_dir == base_dir,
    {
        FsAssetSupplier { base_dir }
    }

    /// What the supplier answers for an asset given how reading its file
    /// (the asset's path under the base directory) went: the bytes read; not
    /// found when the file is absent; an I/O failure naming the asset
    /// otherwise.
    pub fn provide_from_read(&self, asset_id: &str, read: Result<Vec<u8>, AssetReadFailure>) -> (r: Result<
        Vec<u8>,
        AssetSupplierError,
    >)
        ensures
            match read {
                Ok(bytes) => r == Ok::<Vec<u8>, AssetSupplierError>(bytes),
                Err(AssetReadFailure::NotFound) => r matches Err(AssetSupplierError::NotFound(id)) && id@ == asset_id@,
                Err(AssetReadFailure::Other(m)) => r matches Err(AssetSupplierError::Io { asset_id: id, message })
                    && id@ == asset_id@ && message == m,
            },
    {
        match read {
            Ok(bytes) => Ok(bytes),
            Err(AssetReadFailure::NotFound) => Err(AssetSupplierError::NotFound(String::from_str(asset_id))),
            Err(AssetReadFailure::Other(message)) => Err(
                AssetSupplierError::Io { asset_id: String::from_str(asset_id), message },
            ),
        }
    }
}


/// Reading back a write: after `with(id, bytes)` the supplier gives `bytes`
/// for `id`, and for every other id what it gave before.
pub proof fn law_supplier_read_after_write(s: MapAssetSupplier, id: Seq<char>, bytes: Seq<u8>, other: Seq<char>)
    ensures
        s.contents().insert(id, bytes).contains_key(id),
        s.contents().insert(id, bytes)[id] == bytes,
        other != id ==> s.contents().insert(id, bytes).contains_key(other) == s.contents().contains_key(other),
        other != id && s.contents().contains_key(other) ==> s.contents().insert(id, bytes)[other] == s.contents()[other],
{
}

} // verus!

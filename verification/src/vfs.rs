//! Files in memory: generated code by path, written out in one go by the caller.
use vstd::prelude::*;
use crate::text::{push_str, str_eq};

verus! {

/// The first position of a key in a list of keys.
pub open spec fn key_index(keys: Seq<Seq<char>>, k: Seq<char>) -> Option<int>
    decreases keys.len(),
{
    if keys.len() == 0 {
        None
    } else if keys[0] == k {
        Some(0)
    } else {
        match key_index(keys.drop_first(), k) {
            Some(i) => Some(i + 1),
            None => None,
        }
    }
}

pub proof fn lemma_key_index(keys: Seq<Seq<char>>, k: Seq<char>)
    ensures
        key_index(keys, k) matches Some(i) ==> 0 <= i < keys.len() && keys[i] == k && forall|j: int| 0 <= j < i ==> #[trigger] keys[j] != k,
        key_index(keys, k) is None ==> forall|j: int| 0 <= j < keys.len() ==> #[trigger] keys[j] != k,
    decreases keys.len(),
{
    if keys.len() > 0 && keys[0] != k {
        let rest = keys.drop_first();
        lemma_key_index(rest, k);
        match key_index(rest, k) {
            Some(i) => {
                assert(keys[i + 1] == rest[i]);
                assert forall|j: int| 0 <= j < i + 1 implies #[trigger] keys[j] != k by {
                    if j > 0 {
                        assert(keys[j] == rest[j - 1]);
                    }
                }
            },
            None => {
                assert forall|j: int| 0 <= j < keys.len() implies #[trigger] keys[j] != k by {
                    if j > 0 {
                        assert(keys[j] == rest[j - 1]);
                    }
                }
            },
        }
    }
}

/// The keys of a list of entries keyed by a string.
pub open spec fn keys_of<V>(m: Seq<(String, V)>) -> Seq<Seq<char>> {
    m.map_values(|e: (String, V)| e.0@)
}

/// Finds the first entry stored under `key`.
pub fn find_entry<V>(m: &Vec<(String, V)>, key: &str) -> (r: Option<usize>)
    ensures
        match r {
            Some(i) => key_index(keys_of(m@), key@) == Some(i as int),
            None => key_index(keys_of(m@), key@) is None,
        },
{
    proof {
        lemma_key_index(keys_of(m@), key@);
    }
    let mut i: usize = 0;
    while i < m.len()
        invariant
            i <= m.len(),
            forall|j: int| 0 <= j < i ==> #[trigger] keys_of(m@)[j] != key@,
            key_index(keys_of(m@), key@) matches Some(k) ==> 0 <= k < m@.len() && keys_of(m@)[k] == key@ && forall|j: int|
                0 <= j < k ==> #[trigger] keys_of(m@)[j] != key@,
            key_index(keys_of(m@), key@) is None ==> forall|j: int| 0 <= j < m@.len() ==> #[trigger] keys_of(m@)[j] != key@,
        decreases m.len() - i,
    {
        assert(keys_of(m@)[i as int] == m@[i as int].0@);
        if str_eq(m[i].0.as_str(), key) {
            return Some(i);
        }
        i += 1;
    }
    None
}

/// Files by path, each once, in the order they were first written.
pub struct VirtualRustFs {
    pub files: Vec<(String, String)>,
}

pub type FilesView = Seq<(Seq<char>, Seq<char>)>;

impl View for VirtualRustFs {
    type V = FilesView;

    open spec fn view(&self) -> FilesView {
        self.files@.map_values(|e: (String, String)| (e.0@, e.1@))
    }
}

/// Code written to a file: after what the file holds, or as a new file.
pub open spec fn write_spec(files: FilesView, path: Seq<char>, tokens: Seq<char>) -> FilesView {
    match key_index(files.map_values(|e: (Seq<char>, Seq<char>)| e.0), path) {
        Some(i) => files.update(i, (path, files[i].1 + " "@ + tokens)),
        None => files.push((path, tokens)),
    }
}

impl VirtualRustFs {
    pub fn new() -> (r: VirtualRustFs)
        ensures
            r@ == Seq::<(Seq<char>, Seq<char>)>::empty(),
    {
        VirtualRustFs { files: Vec::new() }
    }

    /// Writes code to a file.
    pub fn write(&mut self, path: &str, tokens: &str)
        ensures
            final(self)@ == write_spec(old(self)@, path@, tokens@),
    {
        let ghost before = self@;
        assert(keys_of(self.files@) =~= before.map_values(|e: (Seq<char>, Seq<char>)| e.0));
        proof {
            lemma_key_index(keys_of(self.files@), path@);
        }
        match find_entry(&self.files, path) {
            Some(i) => {
                let mut content = self.files[i].1.clone();
                push_str(&mut content, " ");
                push_str(&mut content, tokens);
                self.files.set(i, (path.to_owned(), content));
                assert(self@ =~= write_spec(before, path@, tokens@));
            },
            None => {
                self.files.push((path.to_owned(), tokens.to_owned()));
                assert(self@ =~= write_spec(before, path@, tokens@));
            },
        }
    }
}

} // verus!

verus! {

/// A key added where missing is found at the end.
pub proof fn lemma_key_index_push(keys: Seq<Seq<char>>, k: Seq<char>)
    requires
        key_index(keys, k) is None,
    ensures
        key_index(keys.push(k), k) == Some(keys.len() as int),
{
    lemma_key_index(keys, k);
    lemma_key_index(keys.push(k), k);
    match key_index(keys.push(k), k) {
        Some(j) => {
            if j < keys.len() {
                assert(keys.push(k)[j] == keys[j]);
            }
        },
        None => {
            assert(keys.push(k)[keys.len() as int] == k);
        },
    }
}

} // verus!

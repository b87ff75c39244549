//! Command-name resolution and completion: a table from command names to
//! what they resolve to, held in a byte-keyed prefix tree.
//!
//! The tree itself comes from an outside crate; the table's contents are
//! modelled by [`trie_map`], and every operation the shell needs goes
//! through a small trusted wrapper whose contract speaks over that model.

use vstd::prelude::*;

use crate::builtin::Builtins;
use vstd::string::StringSliceAdditionalSpecFns;

verus! {

/// An error while building the completion table.
#[derive(Debug)]
pub enum CompletionError {
    /// The PATH environment variable is not set.
    MissingPathEnv,
    /// A file in a PATH directory has no usable name.
    FileNameMissing(String),
    /// An operating-system error, rendered as text.
    Io(String),
}

/// What a command name resolves to: a builtin, or an executable at a path.
#[derive(Debug, Clone)]
pub enum Type {
    Builtin(Builtins),
    Program(String),
}

/// One resolvable command: its name and what it resolves to.
#[derive(Debug, Clone)]
pub struct Entry {
    pub key: String,
    pub value: Type,
}

/// The prefix tree of an outside crate, declared so that values of it can be
/// held in fields and passed around.
#[verifier::external_type_specification]
#[verifier::external_body]
#[verifier::reject_recursive_types(K)]
#[verifier::reject_recursive_types(V)]
pub struct ExTrie<K: Eq + Ord + Clone, V>(ptrie::Trie<K, V>);

/// The contents of a byte-keyed index trie: which value each key sequence
/// maps to.
pub uninterp spec fn trie_map(t: &ptrie::Trie<u8, usize>) -> Map<Seq<u8>, usize>;

/// Relies on `ptrie::Trie::new`: a fresh trie maps no key.
#[verifier::external_body]
fn trie_new() -> (t: ptrie::Trie<u8, usize>)
    ensures
        forall|k: Seq<u8>| !trie_map(&t).dom().contains(k),
{
    ptrie::Trie::new()
}

/// Relies on `ptrie::Trie::insert`: it sets the value at exactly the given
/// key, replacing any previous one and touching no other key.
#[verifier::external_body]
fn trie_insert(t: &mut ptrie::Trie<u8, usize>, key: &[u8], value: usize)
    ensures
        trie_map(final(t)) == trie_map(old(t)).insert(key@, value),
{
    t.insert(key.iter().copied(), value)
}

/// Relies on `ptrie::Trie::get`: it returns the value at exactly that key.
#[verifier::external_body]
fn trie_get(t: &ptrie::Trie<u8, usize>, key: &[u8]) -> (r: Option<usize>)
    ensures
        trie_map(t).dom().contains(key@) ==> r == Some(trie_map(t)[key@]),
        !trie_map(t).dom().contains(key@) ==> r is None,
{
    t.get(key.iter().copied()).copied()
}

/// Some key extending `prefix` maps to the value `v`.
pub open spec fn names_value(m: Map<Seq<u8>, usize>, prefix: Seq<u8>, v: usize) -> bool {
    exists|k: Seq<u8>| #![auto] m.dom().contains(k) && prefix.is_prefix_of(k) && m[k] == v
}

/// Relies on `ptrie::Trie::find_postfixes`: it returns the values of exactly
/// the keys that the query is a prefix of, each once.
#[verifier::external_body]
fn trie_find_postfixes(t: &ptrie::Trie<u8, usize>, prefix: &[u8]) -> (r: Vec<usize>)
    ensures
        forall|i: int|
            0 <= i < r@.len() ==> names_value(trie_map(t), prefix@, #[trigger] r@[i]),
        forall|k: Seq<u8>|
            #![auto]
            trie_map(t).dom().contains(k) && prefix@.is_prefix_of(k) ==> r@.contains(
                trie_map(t)[k],
            ),
{
    let mut out = Vec::new();
    for v in t.find_postfixes(prefix.iter().copied()) {
        out.push(*v);
    }
    out
}

/// The longest nonempty key that is a prefix of `query` maps to the value
/// `v`.
pub open spec fn longest_prefix_value(m: Map<Seq<u8>, usize>, query: Seq<u8>, v: usize) -> bool {
    exists|k: Seq<u8>|
        #![auto]
        m.dom().contains(k) && k.len() > 0 && k.is_prefix_of(query) && m[k] == v && (forall|
            k2: Seq<u8>,
        |
            #![auto]
            m.dom().contains(k2) && k2.len() > 0 && k2.is_prefix_of(query) ==> k2.len()
                <= k.len())
}

/// Relies on `ptrie::Trie::find_longest_prefix`: it returns the value of the
/// longest nonempty key that is a prefix of the query, if any key is.
#[verifier::external_body]
fn trie_find_longest_prefix(t: &ptrie::Trie<u8, usize>, query: &[u8]) -> (r: Option<usize>)
    ensures
        r matches Some(v) ==> longest_prefix_value(trie_map(t), query@, v),
        r is None ==> forall|k: Seq<u8>|
            #![auto]
            trie_map(t).dom().contains(k) && k.len() > 0 ==> !k.is_prefix_of(query@),
{
    t.find_longest_prefix(query.iter().copied()).copied()
}

/// The six builtin command names encode to pairwise distinct byte keys.
proof fn lemma_builtin_names_distinct()
    ensures
        ("exit").spec_bytes() != ("echo").spec_bytes(),
        ("exit").spec_bytes() != ("type").spec_bytes(),
        ("exit").spec_bytes() != ("pwd").spec_bytes(),
        ("exit").spec_bytes() != ("cd").spec_bytes(),
        ("exit").spec_bytes() != ("history").spec_bytes(),
        ("echo").spec_bytes() != ("type").spec_bytes(),
        ("echo").spec_bytes() != ("pwd").spec_bytes(),
        ("echo").spec_bytes() != ("cd").spec_bytes(),
        ("echo").spec_bytes() != ("history").spec_bytes(),
        ("type").spec_bytes() != ("pwd").spec_bytes(),
        ("type").spec_bytes() != ("cd").spec_bytes(),
        ("type").spec_bytes() != ("history").spec_bytes(),
        ("pwd").spec_bytes() != ("cd").spec_bytes(),
        ("pwd").spec_bytes() != ("history").spec_bytes(),
        ("cd").spec_bytes() != ("history").spec_bytes(),
{
    reveal_strlit("exit");
    reveal_strlit("echo");
    reveal_strlit("type");
    reveal_strlit("pwd");
    reveal_strlit("cd");
    reveal_strlit("history");
    vstd::utf8::encode_utf8_decode_utf8(("exit")@);
    vstd::utf8::encode_utf8_decode_utf8(("echo")@);
    vstd::utf8::encode_utf8_decode_utf8(("type")@);
    vstd::utf8::encode_utf8_decode_utf8(("pwd")@);
    vstd::utf8::encode_utf8_decode_utf8(("cd")@);
    vstd::utf8::encode_utf8_decode_utf8(("history")@);
    assert(("exit")@[0] == 'e' && ("exit")@[1] == 'x');
    assert(("echo")@[0] == 'e' && ("echo")@[1] == 'c');
    assert(("type")@[0] == 't');
    assert(("pwd")@[0] == 'p');
    assert(("cd")@[0] == 'c');
    assert(("history")@[0] == 'h');
}

/// The completion table: a prefix tree from command-name bytes to indices
/// into the entry table.
pub struct Completion {
    map: ptrie::Trie<u8, usize>,
    entries: Vec<Entry>,
}

impl Completion {
    /// Every index the tree holds points into the entry table.
    pub closed spec fn wf(&self) -> bool {
        forall|k: Seq<u8>| #[trigger]
            trie_map(&self.map).dom().contains(k) ==> trie_map(&self.map)[k]
                < self.entries@.len()
    }

    /// Whether a command name (as bytes) is in the table.
    pub closed spec fn contains_name(&self, name: Seq<u8>) -> bool {
        trie_map(&self.map).dom().contains(name)
    }

    /// The entry a command name (as bytes) resolves to.
    pub closed spec fn entry_for(&self, name: Seq<u8>) -> Entry {
        self.entries@[trie_map(&self.map)[name] as int]
    }

    /// The table resolves `name` to the builtin `b`.
    pub open spec fn resolves_builtin(&self, name: Seq<u8>, b: Builtins) -> bool {
        &&& self.contains_name(name)
        &&& self.entry_for(name).value == Type::Builtin(b)
    }

    /// Build the table holding the six builtins under their command names;
    /// program names found on the search path are added afterwards, one by
    /// one, by the caller.
    pub fn new() -> (r: Result<Completion, CompletionError>)
        ensures
            r matches Ok(c) && c.wf() && c.resolves_builtin(
                ("exit").spec_bytes(),
                Builtins::Exit,
            ) && c.resolves_builtin(("echo").spec_bytes(), Builtins::Echo) && c.resolves_builtin(
                ("type").spec_bytes(),
                Builtins::Type,
            ) && c.resolves_builtin(("pwd").spec_bytes(), Builtins::Pwd) && c.resolves_builtin(
                ("cd").spec_bytes(),
                Builtins::Cd,
            ) && c.resolves_builtin(("history").spec_bytes(), Builtins::History),
    {
        let mut c = Completion { map: trie_new(), entries: Vec::new() };
        Self::generate_builtins(&mut c);
        Ok(c)
    }

    /// Insert every supported builtin under its command name.
    fn generate_builtins(c: &mut Completion)
        requires
            old(c).wf(),
        ensures
            final(c).wf(),
            final(c).resolves_builtin(("exit").spec_bytes(), Builtins::Exit),
            final(c).resolves_builtin(("echo").spec_bytes(), Builtins::Echo),
            final(c).resolves_builtin(("type").spec_bytes(), Builtins::Type),
            final(c).resolves_builtin(("pwd").spec_bytes(), Builtins::Pwd),
            final(c).resolves_builtin(("cd").spec_bytes(), Builtins::Cd),
            final(c).resolves_builtin(("history").spec_bytes(), Builtins::History),
            forall|n: Seq<u8>| old(c).contains_name(n) ==> final(c).contains_name(n),
    {
        proof {
            lemma_builtin_names_distinct();
        }
        let supported = Builtins::supported();
        c.add("exit", Type::Builtin(supported[0].0));
        c.add("echo", Type::Builtin(supported[1].0));
        c.add("type", Type::Builtin(supported[2].0));
        c.add("pwd", Type::Builtin(supported[3].0));
        c.add("cd", Type::Builtin(supported[4].0));
        c.add("history", Type::Builtin(supported[5].0));
    }

    /// Add one command under its name; a name added twice keeps its latest
    /// entry.
    pub fn add(&mut self, name: &str, value: Type)
        requires
            old(self).wf(),
        ensures
            final(self).wf(),
            final(self).contains_name(name.spec_bytes()),
            final(self).entry_for(name.spec_bytes()).key@ == name@,
            final(self).entry_for(name.spec_bytes()).value == value,
            forall|n: Seq<u8>|
                #![auto]
                final(self).contains_name(n) <==> (old(self).contains_name(n) || n
                    == name.spec_bytes()),
            forall|n: Seq<u8>|
                #![auto]
                old(self).contains_name(n) && n != name.spec_bytes() ==> final(self).entry_for(n)
                    == old(self).entry_for(n),
    {
        let idx = self.entries.len();
        self.entries.push(Entry { key: name.to_owned(), value });
        trie_insert(&mut self.map, name.as_bytes(), idx);
    }

    /// Look a command name up; the entry under exactly that name, if any.
    pub fn matches_exact(&self, query: &str) -> (r: Option<&Entry>)
        requires
            self.wf(),
        ensures
            self.contains_name(query.spec_bytes()) ==> (r matches Some(e) && *e == self.entry_for(
                query.spec_bytes(),
            )),
            !self.contains_name(query.spec_bytes()) ==> r is None,
    {
        let bytes = query.as_bytes();
        match trie_get(&self.map, bytes) {
            Some(i) => Some(&self.entries[i]),
            None => None,
        }
    }

    /// The entry `e` is in the table under some name extending `query`.
    pub open spec fn is_match(&self, query: Seq<u8>, e: Entry) -> bool {
        exists|k: Seq<u8>|
            #![auto]
            self.contains_name(k) && query.is_prefix_of(k) && e == self.entry_for(k)
    }

    /// The entry `e` is in the table under the longest name that is a prefix
    /// of `query`.
    pub open spec fn is_longest_match(&self, query: Seq<u8>, e: Entry) -> bool {
        exists|k: Seq<u8>|
            #![auto]
            self.contains_name(k) && k.len() > 0 && k.is_prefix_of(query) && e == self.entry_for(
                k,
            ) && (forall|k2: Seq<u8>|
                #![auto]
                self.contains_name(k2) && k2.len() > 0 && k2.is_prefix_of(query) ==> k2.len()
                    <= k.len())
    }

    /// Every entry whose command name extends the query: each returned entry
    /// stands in the table under such a name, and every such name's entry is
    /// returned.
    pub fn matches(&self, query: &str) -> (r: Vec<&Entry>)
        requires
            self.wf(),
        ensures
            forall|i: int|
                0 <= i < r@.len() ==> self.is_match(query.spec_bytes(), *(#[trigger] r@[i])),
            forall|k: Seq<u8>|
                #![auto]
                self.contains_name(k) && query.spec_bytes().is_prefix_of(k) ==> exists|i: int|
                    0 <= i < r@.len() && *r@[i] == self.entry_for(k),
    {
        let qb = query.as_bytes();
        let idxs = trie_find_postfixes(&self.map, qb);
        let mut out: Vec<&Entry> = Vec::new();
        let n = idxs.len();
        let mut j: usize = 0;
        while j < n
            invariant
                self.wf(),
                n == idxs@.len(),
                j <= n,
                out@.len() == j,
                qb@ == query.spec_bytes(),
                forall|i: int|
                    0 <= i < idxs@.len() ==> names_value(
                        trie_map(&self.map),
                        qb@,
                        #[trigger] idxs@[i],
                    ),
                forall|i: int|
                    0 <= i < j ==> *(#[trigger] out@[i]) == self.entries@[idxs@[i] as int],
            decreases n - j,
        {
            let idx = idxs[j];
            proof {
                let k = choose|k: Seq<u8>|
                    #![auto]
                    trie_map(&self.map).dom().contains(k) && qb@.is_prefix_of(k) && trie_map(
                        &self.map,
                    )[k] == idxs@[j as int];
                assert(trie_map(&self.map)[k] < self.entries@.len());
            }
            out.push(&self.entries[idx]);
            j = j + 1;
        }
        proof {
            assert forall|i: int| 0 <= i < out@.len() implies self.is_match(
                query.spec_bytes(),
                *(#[trigger] out@[i]),
            ) by {
                let k = choose|k: Seq<u8>|
                    #![auto]
                    trie_map(&self.map).dom().contains(k) && qb@.is_prefix_of(k) && trie_map(
                        &self.map,
                    )[k] == idxs@[i];
                assert(self.contains_name(k) && query.spec_bytes().is_prefix_of(k) && *out@[i]
                    == self.entry_for(k));
            }
            assert forall|k: Seq<u8>|
                #![auto]
                self.contains_name(k) && query.spec_bytes().is_prefix_of(k) implies exists|i: int|
                0 <= i < out@.len() && *out@[i] == self.entry_for(k) by {
                assert(idxs@.contains(trie_map(&self.map)[k]));
                let i = choose|i: int| 0 <= i < idxs@.len() && idxs@[i] == trie_map(&self.map)[k];
                assert(0 <= i < out@.len() && *out@[i] == self.entry_for(k));
            }
        }
        out
    }

    /// The entry under the longest command name that is a prefix of the
    /// query, if any.
    pub fn longest_prefix(&self, query: &str) -> (r: Option<&Entry>)
        requires
            self.wf(),
        ensures
            r matches Some(e) ==> self.is_longest_match(query.spec_bytes(), *e),
            r is None ==> forall|k: Seq<u8>|
                #![auto]
                self.contains_name(k) && k.len() > 0 ==> !k.is_prefix_of(query.spec_bytes()),
    {
        let qb = query.as_bytes();
        match trie_find_longest_prefix(&self.map, qb) {
            Some(i) => {
                proof {
                    let k = choose|k: Seq<u8>|
                        #![auto]
                        trie_map(&self.map).dom().contains(k) && k.len() > 0 && k.is_prefix_of(
                            qb@,
                        ) && trie_map(&self.map)[k] == i && (forall|k2: Seq<u8>|
                            #![auto]
                            trie_map(&self.map).dom().contains(k2) && k2.len() > 0
                                && k2.is_prefix_of(qb@) ==> k2.len() <= k.len());
                    assert(trie_map(&self.map)[k] < self.entries@.len());
                    assert(self.contains_name(k) && k.len() > 0 && k.is_prefix_of(
                        query.spec_bytes(),
                    ) && self.entries@[i as int] == self.entry_for(k) && (forall|k2: Seq<u8>|
                        #![auto]
                        self.contains_name(k2) && k2.len() > 0 && k2.is_prefix_of(
                            query.spec_bytes(),
                        ) ==> k2.len() <= k.len()));
                }
                Some(&self.entries[i])
            },
            None => None,
        }
    }
}

} // verus!

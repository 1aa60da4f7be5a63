//! A table from shader names to shader sources, and the Rust source of a
//! lookup table that holds it.

use vstd::prelude::*;
use vstd::string::StringExecFns;

verus! {

/// Collects shader sources by name.
pub struct ShaderMapGenerator {
    shaders: Vec<(String, String)>,
}

/// What stands before the entries in the generated source.
pub const MAP_HEADER: &'static str = r#"
use std::collections::HashMap;
lazy_static::lazy_static! {
    pub static ref SHARDERMAP: HashMap<String, String> = {
        let mut m = HashMap::new();
        "#;

/// What stands after the entries in the generated source.
pub const MAP_FOOTER: &'static str = r#"
        m
    };
}
        "#;

/// The place of `key` among the entries, or their number where none has it.
pub open spec fn position_of(entries: Seq<(Seq<char>, Seq<char>)>, key: Seq<char>, from: int) -> int
    decreases entries.len() - from,
{
    if from < 0 || from >= entries.len() {
        entries.len() as int
    } else if entries[from].0 == key {
        from
    } else {
        position_of(entries, key, from + 1)
    }
}

/// The entries after `key` has been given the value `val`: an entry with
/// that key gets the new value and keeps its place; a new key goes last.
pub open spec fn inserted(
    entries: Seq<(Seq<char>, Seq<char>)>,
    key: Seq<char>,
    val: Seq<char>,
) -> Seq<(Seq<char>, Seq<char>)> {
    let at = position_of(entries, key, 0);
    if at < entries.len() {
        entries.update(at, (key, val))
    } else {
        entries.push((key, val))
    }
}

/// Whether no two entries have the same key.
pub open spec fn keys_distinct(entries: Seq<(Seq<char>, Seq<char>)>) -> bool {
    forall|i: int, j: int|
        0 <= i < j < entries.len() ==> (#[trigger] entries[i]).0 != (#[trigger] entries[j]).0
}

/// The line of generated source that inserts one entry.
pub open spec fn entry_code(entry: (Seq<char>, Seq<char>)) -> Seq<char> {
    "        m.insert(\""@ + entry.0 + "\".to_string(), \""@ + entry.1 + "\".to_string());"@
}

/// The generated source for the first `n` entries, one after another.
pub open spec fn entries_code(entries: Seq<(Seq<char>, Seq<char>)>, n: int) -> Seq<char>
    decreases n,
{
    if n <= 0 {
        Seq::empty()
    } else {
        entries_code(entries, n - 1) + entry_code(entries[n - 1])
    }
}

proof fn lemma_position_of(entries: Seq<(Seq<char>, Seq<char>)>, key: Seq<char>, from: int)
    requires
        0 <= from <= entries.len(),
    ensures
        from <= position_of(entries, key, from) <= entries.len(),
        forall|i: int|
            from <= i < position_of(entries, key, from) ==> (#[trigger] entries[i]).0 != key,
        position_of(entries, key, from) < entries.len() ==> entries[position_of(
            entries,
            key,
            from,
        )].0 == key,
    decreases entries.len() - from,
{
    if from < entries.len() && entries[from].0 != key {
        lemma_position_of(entries, key, from + 1);
    }
}

impl ShaderMapGenerator {
    /// The entries, in the order in which their keys first came.
    pub closed spec fn entries(&self) -> Seq<(Seq<char>, Seq<char>)> {
        Seq::new(self.shaders@.len(), |i: int| (self.shaders@[i].0@, self.shaders@[i].1@))
    }

    /// Whether every name stands for one source.
    pub closed spec fn wf(&self) -> bool {
        keys_distinct(self.entries())
    }

    /// A table without entries.
    pub fn new() -> (generator: Self)
        ensures
            generator.wf(),
            generator.entries() == Seq::<(Seq<char>, Seq<char>)>::empty(),
    {
        let generator = Self { shaders: Vec::new() };
        assert(generator.entries() =~= Seq::<(Seq<char>, Seq<char>)>::empty());
        generator
    }

    /// Gives the shader named `key` the source `val`, whether or not the
    /// name was known.
    pub fn insert(&mut self, key: String, val: String)
        requires
            old(self).wf(),
        ensures
            final(self).wf(),
            final(self).entries() == inserted(old(self).entries(), key@, val@),
    {
        let ghost before = self.entries();
        let mut i: usize = 0;
        while i < self.shaders.len()
            invariant
                i <= self.shaders@.len(),
                self.entries() == before,
                before == old(self).entries(),
                keys_distinct(before),
                position_of(before, key@, 0) == position_of(before, key@, i as int),
            decreases self.shaders@.len() - i,
        {
            assert(before[i as int].0 == self.shaders@[i as int].0@);
            if self.shaders[i].0 == key {
                let ghost pre = self.shaders@;
                self.shaders[i] = (key, val);
                proof {
                    let after = self.entries();
                    let want = inserted(before, key@, val@);
                    assert(after.len() == want.len());
                    assert forall|k: int| 0 <= k < after.len() implies after[k] == want[k] by {
                        if k != i {
                            assert(before[k] == (pre[k].0@, pre[k].1@));
                        }
                    }
                    assert(after =~= want);
                    assert forall|a: int, b: int| 0 <= a < b < after.len() implies (#[trigger] after[a]).0
                        != (#[trigger] after[b]).0 by {
                        assert(after[a].0 == before[a].0 && after[b].0 == before[b].0);
                    }
                }
                return ;
            }
            i += 1;
        }
        let ghost pre = self.shaders@;
        self.shaders.push((key, val));
        proof {
            let after = self.entries();
            let want = inserted(before, key@, val@);
            lemma_position_of(before, key@, 0);
            assert(after.len() == want.len());
            assert forall|k: int| 0 <= k < after.len() implies after[k] == want[k] by {
                if k < before.len() {
                    assert(before[k] == (pre[k].0@, pre[k].1@));
                }
            }
            assert(after =~= want);
            assert forall|a: int, b: int| 0 <= a < b < after.len() implies (#[trigger] after[a]).0
                != (#[trigger] after[b]).0 by {
                if b < before.len() {
                    assert(after[a].0 == before[a].0 && after[b].0 == before[b].0);
                } else {
                    assert(after[a].0 == before[a].0);
                }
            }
        }
    }

    /// The number of shaders collected.
    pub fn len(&self) -> (n: usize)
        ensures
            n == self.entries().len(),
    {
        self.shaders.len()
    }

    /// The source of the shader named `key`, if one was given.
    pub fn get(&self, key: &String) -> (val: Option<&String>)
        ensures
            match val {
                Some(v) => position_of(self.entries(), key@, 0) < self.entries().len()
                    && v@ == self.entries()[position_of(self.entries(), key@, 0)].1,
                None => position_of(self.entries(), key@, 0) == self.entries().len(),
            },
    {
        let mut i: usize = 0;
        while i < self.shaders.len()
            invariant
                i <= self.shaders@.len(),
                position_of(self.entries(), key@, 0) == position_of(
                    self.entries(),
                    key@,
                    i as int,
                ),
            decreases self.shaders@.len() - i,
        {
            assert(self.entries()[i as int].0 == self.shaders@[i as int].0@);
            if self.shaders[i].0 == *key {
                return Some(&self.shaders[i].1);
            }
            i += 1;
        }
        None
    }

    /// The Rust source of a lookup table that holds every entry: a header,
    /// one insertion for each entry in order, and a footer.
    pub fn generate_code(&self) -> (code: String)
        ensures
            code@ == MAP_HEADER@ + entries_code(self.entries(), self.entries().len() as int)
                + MAP_FOOTER@,
    {
        let mut code = String::from_str(MAP_HEADER);
        let mut i: usize = 0;
        while i < self.shaders.len()
            invariant
                i <= self.shaders@.len(),
                code@ == MAP_HEADER@ + entries_code(self.entries(), i as int),
            decreases self.shaders@.len() - i,
        {
            let mut s = String::from_str("        m.insert(\"");
            s.append(self.shaders[i].0.as_str());
            s.append("\".to_string(), \"");
            s.append(self.shaders[i].1.as_str());
            s.append("\".to_string());");
            code.append(s.as_str());
            proof {
                assert(self.entries()[i as int] == (
                    self.shaders@[i as int].0@,
                    self.shaders@[i as int].1@,
                ));
                assert(s@ =~= entry_code(self.entries()[i as int]));
                assert(code@ =~= MAP_HEADER@ + entries_code(self.entries(), i + 1));
            }
            i += 1;
        }
        code.append(MAP_FOOTER);
        code
    }
}

} // verus!

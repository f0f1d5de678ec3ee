//! The compiled unit: instruction words, a constant pool, per-instruction
//! source lines, the local-variable table whose indices the instructions
//! use, and the object definitions of the unit.

use vstd::prelude::*;

verus! {

use crate::ast_compiler::Parameter;
use crate::text::str_eq;
use crate::tokens::TokenType;
use crate::value::{list_view, lemma_list_view, lemma_list_view_push, Value, ValueV};

/// One compiled unit of bytecode with its metadata.
#[derive(Debug)]
pub struct Chunk {
    pub name: String,
    pub code: Vec<u16>,
    pub constants: Vec<Value>,
    pub lines: Vec<usize>,
    pub object_defs: Vec<(String, Vec<String>)>,
    pub function_parameters: Vec<Parameter>,
    pub vars: Vec<(TokenType, String)>,
}

/// The mathematical shape of a chunk.
#[verifier::ext_equal]
pub ghost struct ChunkV {
    pub name: Seq<char>,
    pub code: Seq<u16>,
    pub constants: Seq<ValueV>,
    pub lines: Seq<usize>,
    pub object_defs: Seq<(Seq<char>, Seq<Seq<char>>)>,
    pub vars: Seq<(TokenType, Seq<char>)>,
}

/// The shapes of a variable table.
pub open spec fn vars_view(s: Seq<(TokenType, String)>) -> Seq<(TokenType, Seq<char>)> {
    Seq::new(s.len(), |i: int| (s[i].0, s[i].1@))
}

/// The shapes of a name list.
pub open spec fn names_view(s: Seq<String>) -> Seq<Seq<char>> {
    Seq::new(s.len(), |i: int| s[i]@)
}

/// The shapes of an object-definition table.
pub open spec fn defs_view(s: Seq<(String, Vec<String>)>) -> Seq<(Seq<char>, Seq<Seq<char>>)> {
    Seq::new(s.len(), |i: int| (s[i].0@, names_view(s[i].1@)))
}

impl View for Chunk {
    type V = ChunkV;

    open spec fn view(&self) -> ChunkV {
        ChunkV {
            name: self.name@,
            code: self.code@,
            constants: list_view(self.constants@),
            lines: self.lines@,
            object_defs: defs_view(self.object_defs@),
            vars: vars_view(self.vars@),
        }
    }
}

impl Chunk {
    /// An empty chunk under the given name.
    pub fn new(name: &str) -> (r: Chunk)
        ensures
            r@.name == name@,
            r@.code.len() == 0,
            r@.constants.len() == 0,
            r@.lines.len() == 0,
            r@.object_defs.len() == 0,
            r@.vars.len() == 0,
    {
        broadcast use lemma_list_view;

        let r = Chunk {
            name: name.to_owned(),
            code: Vec::new(),
            constants: Vec::new(),
            lines: Vec::new(),
            object_defs: Vec::new(),
            function_parameters: Vec::new(),
            vars: Vec::new(),
        };
        proof {
            assert(r@.object_defs =~= Seq::<(Seq<char>, Seq<Seq<char>>)>::empty());
            assert(r@.vars =~= Seq::<(TokenType, Seq<char>)>::empty());
        }
        r
    }

    /// Append one instruction word, recording its source line.
    pub fn add(&mut self, word: u16, line: usize)
        ensures
            final(self)@ == (ChunkV {
                code: old(self)@.code.push(word),
                lines: old(self)@.lines.push(line),
                ..old(self)@
            }),
    {
        self.code.push(word);
        self.lines.push(line);
        proof {
            assert(final(self)@ =~~= (ChunkV {
                code: old(self)@.code.push(word),
                lines: old(self)@.lines.push(line),
                ..old(self)@
            }));
        }
    }

    /// Append a constant to the pool, returning its index.
    pub fn add_constant(&mut self, value: Value) -> (index: usize)
        ensures
            index == old(self)@.constants.len(),
            final(self)@ == (ChunkV {
                constants: old(self)@.constants.push(value@),
                ..old(self)@
            }),
    {
        broadcast use lemma_list_view, lemma_list_view_push;

        let index = self.constants.len();
        self.constants.push(value);
        proof {
            assert(final(self)@ =~~= (ChunkV {
                constants: old(self)@.constants.push(value@),
                ..old(self)@
            }));
        }
        index
    }

    /// Append a slot to the variable table, returning its index.
    pub fn add_var(&mut self, var_type: TokenType, name: &str) -> (index: usize)
        ensures
            index == old(self)@.vars.len(),
            final(self)@ == (ChunkV { vars: old(self)@.vars.push((var_type, name@)), ..old(self)@ }),
    {
        let index = self.vars.len();
        self.vars.push((var_type, name.to_owned()));
        proof {
            assert(final(self)@.vars =~= old(self)@.vars.push((var_type, name@)));
            assert(final(self)@ =~~= (ChunkV {
                vars: old(self)@.vars.push((var_type, name@)),
                ..old(self)@
            }));
        }
        index
    }

    /// Record an object definition on this chunk.
    pub fn add_object_def(&mut self, name: &str, fields: Vec<String>)
        ensures
            final(self)@ == (ChunkV {
                object_defs: old(self)@.object_defs.push((name@, names_view(fields@))),
                ..old(self)@
            }),
    {
        let ghost fv = names_view(fields@);
        self.object_defs.push((name.to_owned(), fields));
        proof {
            assert(final(self)@.object_defs =~~= old(self)@.object_defs.push((name@, fv)));
            assert(final(self)@ =~~= (ChunkV {
                object_defs: old(self)@.object_defs.push((name@, fv)),
                ..old(self)@
            }));
        }
    }

    /// The least index of a string constant equal to `text`, if the pool
    /// holds one: interning through this lookup deduplicates strings.
    #[verifier::loop_isolation(false)]
    pub fn find_constant(&self, text: &str) -> (r: Option<usize>)
        ensures
            match r {
                Some(i) => i < self@.constants.len() && self@.constants[i as int]
                    == ValueV::Str(text@) && (forall|j: int|
                    0 <= j < i ==> self@.constants[j] != ValueV::Str(text@)),
                None => forall|i: int|
                    0 <= i < self@.constants.len() ==> self@.constants[i] != ValueV::Str(text@),
            },
    {
        broadcast use lemma_list_view;

        let n = self.constants.len();
        let mut i: usize = 0;
        while i < n
            invariant
                n == self.constants@.len(),
                i <= n,
                forall|j: int|
                    0 <= j < i ==> list_view(self.constants@)[j] != ValueV::Str(text@),
            decreases n - i,
        {
            match &self.constants[i] {
                Value::String(s) => {
                    if str_eq(s.as_str(), text) {
                        return Some(i);
                    }
                }
                _ => (),
            }
            i = i + 1;
        }
        None
    }
}

} // verus!

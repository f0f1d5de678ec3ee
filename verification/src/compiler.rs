//! The whole compilation pipeline: source text to a registry of chunks,
//! and the convenience entry that compiles a unit and runs it at once.

use vstd::prelude::*;

verus! {

use crate::ast_compiler::Statement;
use crate::bytecode_compiler::spec_compile_unit;
use crate::chunk::ChunkV;
use crate::errors::{CompilerErrorAtLineV, Error};
use crate::registry::{spec_assoc, Registry};
use crate::symbols::{Symbol, SymbolTable};
use crate::value::Value;
use crate::vm::{interpret, spec_interpret, OP_RETURN};

/// Compile one source text as the unit "main": scan, parse, collect the
/// declarations, then generate code. On success the registry holds the
/// unit's chunk — its code closed by the return opcode — under "main",
/// and one chunk per declared function under "main/<name>".
pub fn compile(src: &str) -> (r: Result<Registry, Error>)
    ensures
        r matches Ok(registry) ==> (spec_assoc(registry@, "main"@) matches Some(c)
            && c.code.len() >= 1 && c.code.last() == OP_RETURN),
        r matches Ok(registry) ==> (exists|
            ast: Seq<Statement>,
            st: Seq<(String, Symbol)>,
        |
            #[trigger] spec_compile_unit(ast, st, "main"@, Seq::empty()) == Ok::<
                Seq<(Seq<char>, ChunkV)>,
                CompilerErrorAtLineV,
            >(registry@)),
        r matches Err(e) ==> e is Compiler,
{
    let tokens = match crate::scanner::scan(src) {
        Ok(t) => t,
        Err(e) => {
            return Err(Error::Compiler(e));
        }
    };
    let ast = match crate::ast_compiler::compile(None, tokens) {
        Ok(a) => a,
        Err(e) => {
            return Err(Error::Compiler(e));
        }
    };
    let mut symbols = SymbolTable::new();
    crate::symbols::build("", &ast, &mut symbols);
    let mut registry = Registry::new();
    proof {
        assert(registry@ =~= Seq::<(Seq<char>, ChunkV)>::empty());
    }
    match crate::bytecode_compiler::compile(None, &ast, &symbols, &mut registry) {
        Ok(_) => {
            proof {
                assert(spec_compile_unit(ast@, symbols.entries@, "main"@, Seq::empty()) == Ok::<
                    Seq<(Seq<char>, ChunkV)>,
                    CompilerErrorAtLineV,
                >(registry@));
            }
            Ok(registry)
        }
        Err(e) => Err(Error::Compiler(e)),
    }
}

/// Compile one source text and run its unit: on success the value is
/// exactly the specified run, at "main", of a registry that holds a
/// compiled "main" chunk.
pub fn run(src: &str) -> (r: Result<Value, Error>)
    ensures
        r matches Ok(v) ==> exists|reg: Seq<(Seq<char>, ChunkV)>|
            #[trigger] spec_interpret(reg, "main"@) == Ok::<
                crate::value::ValueV,
                crate::errors::RuntimeErrorV,
            >(v@) && (spec_assoc(reg, "main"@) matches Some(c) && c.code.len() >= 1
                && c.code.last() == OP_RETURN),
        r matches Ok(v) ==> exists|
            ast: Seq<Statement>,
            st: Seq<(String, Symbol)>,
            reg: Seq<(Seq<char>, ChunkV)>,
        |
            #![trigger spec_compile_unit(ast, st, "main"@, Seq::empty()), spec_interpret(
                reg,
                "main"@,
            )]
            (spec_compile_unit(ast, st, "main"@, Seq::empty()) == Ok::<
                Seq<(Seq<char>, ChunkV)>,
                CompilerErrorAtLineV,
            >(reg)) && spec_interpret(reg, "main"@) == Ok::<
                crate::value::ValueV,
                crate::errors::RuntimeErrorV,
            >(v@),
        r matches Err(e) ==> !(e is Platform),
        r matches Err(e) ==> (e matches Error::Runtime(inner) ==> exists|
            reg: Seq<(Seq<char>, ChunkV)>,
        |
            #[trigger] spec_interpret(reg, "main"@) == Err::<
                crate::value::ValueV,
                crate::errors::RuntimeErrorV,
            >(inner@) && (spec_assoc(reg, "main"@) matches Some(c) && c.code.len() >= 1
                && c.code.last() == OP_RETURN)),
{
    let registry = match compile(src) {
        Ok(r) => r,
        Err(e) => {
            return Err(e);
        }
    };
    match interpret(&registry, "main") {
        Ok(v) => {
            proof {
                assert(spec_interpret(registry@, "main"@) == Ok::<
                    crate::value::ValueV,
                    crate::errors::RuntimeErrorV,
                >(v@));
                let (ast, st) = choose|ast: Seq<Statement>, st: Seq<(String, Symbol)>|
                    spec_compile_unit(ast, st, "main"@, Seq::empty()) == Ok::<
                        Seq<(Seq<char>, ChunkV)>,
                        CompilerErrorAtLineV,
                    >(registry@);
                assert(spec_compile_unit(ast, st, "main"@, Seq::empty()) == Ok::<
                    Seq<(Seq<char>, ChunkV)>,
                    CompilerErrorAtLineV,
                >(registry@));
            }
            Ok(v)
        }
        Err(e) => Err(Error::Runtime(e)),
    }
}

} // verus!

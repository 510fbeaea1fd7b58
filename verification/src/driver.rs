//! When a crate is analysed and what is printed for it.
//!
//! The host compiler reports the directory it writes to and, once the
//! crate is type-checked, hands over its tree. The rules here say whether
//! the analysis runs and what text it yields; printing is the host's part.

use crate::emitter::UnsafeASTEmitter;
use crate::json::{crate_text, encode};
use crate::summary::{crate_summary, function_summary};
use crate::syntax::SourceCrate;
use crate::unsafe_ast::{block_wf, crate_wf};
use crate::text::str_equal;
use vstd::prelude::*;
use vstd::string::*;

verus! {

/// The crate name under which build scripts are compiled.
pub open spec fn build_script_name() -> Seq<char> {
    "build_script_build"@
}

/// The name of the directory that holds the build products of
/// dependencies.
pub open spec fn deps_dir_name() -> Seq<char> {
    "deps"@
}

/// The name or kind used for a crate that has none.
pub open spec fn unknown_name() -> Seq<char> {
    "????"@
}

/// The record printed for a crate: the summary of its functions and
/// methods as text. A build script yields no record, whatever it holds.
pub fn emit_unsafe_ast(crate_name: String, crate_type: String, krate: &SourceCrate) -> (r: Option<
    String,
>)
    ensures
        crate_name@ == build_script_name() ==> r is None,
        crate_name@ != build_script_name() ==> r is Some && r->0@ == crate_text(
            crate_summary(crate_name@, crate_type@, krate.functions@),
        ),
        r is Some ==> crate_wf(crate_summary(crate_name@, crate_type@, krate.functions@)),
{
    if !str_equal(crate_name.as_str(), "build_script_build") {
        let mut v = UnsafeASTEmitter::new(crate_name, crate_type);
        v.visit_all_items(krate);
        let uast = v.into_uast();
        assert(uast@ =~= crate_summary(crate_name@, crate_type@, krate.functions@));
        assert forall|k: int| 0 <= k < uast@.functions.len() implies block_wf(
            (#[trigger] uast@.functions[k]).block,
        ) by {
            assert(uast@.functions[k] == function_summary(krate.functions@[k]));
        }
        Some(encode(&uast))
    } else {
        None
    }
}

/// What runs once a crate is type-checked.
#[derive(Clone, Copy, PartialEq, Eq, Debug, Structural)]
pub enum Callback {
    /// Nothing.
    Nothing,
    /// The record of the crate is produced.
    EmitUnsafeAst,
}

/// The part of a compiler session that decides on the analysis.
#[derive(Clone, Copy, PartialEq, Eq, Debug, Structural)]
pub struct AnalyzeUnsafe {
    /// Cleared once the session is seen to build a dependency.
    pub do_analysis: bool,
    pub after_analysis_callback: Callback,
}

/// What a session does once its crate is type-checked.
#[derive(Clone, Copy, PartialEq, Eq, Debug, Structural)]
pub struct CompileController {
    pub do_analysis: bool,
    pub callback: Callback,
}

/// The record that the emitting callback yields for a crate, given the
/// name and the kinds that the session knows of it.
pub open spec fn emitted(
    crate_name: Option<Seq<char>>,
    crate_types: Seq<Seq<char>>,
    krate: SourceCrate,
) -> Option<Seq<char>> {
    let name = match crate_name {
        Some(n) => n,
        None => unknown_name(),
    };
    let ty = if crate_types.len() > 0 {
        crate_types[0]
    } else {
        unknown_name()
    };
    if name == build_script_name() {
        None
    } else {
        Some(crate_text(crate_summary(name, ty, krate.functions@)))
    }
}

/// The characters of a text, where there is one.
pub open spec fn text_view(text: Option<String>) -> Option<Seq<char>> {
    match text {
        Some(t) => Some(t@),
        None => None,
    }
}

/// The characters of a borrowed text, where there is one.
pub open spec fn str_view(text: Option<&str>) -> Option<Seq<char>> {
    match text {
        Some(t) => Some(t@),
        None => None,
    }
}

impl AnalyzeUnsafe {
    /// A session that runs `after_analysis_callback` on its crate.
    pub fn new(after_analysis_callback: Callback) -> (r: AnalyzeUnsafe)
        ensures
            r == (AnalyzeUnsafe { do_analysis: true, after_analysis_callback }),
    {
        AnalyzeUnsafe { do_analysis: true, after_analysis_callback }
    }

    /// A session that produces the record of its crate.
    pub fn unsafe_ast_emitter() -> (r: AnalyzeUnsafe)
        ensures
            r == (AnalyzeUnsafe {
                do_analysis: true,
                after_analysis_callback: Callback::EmitUnsafeAst,
            }),
    {
        AnalyzeUnsafe::new(Callback::EmitUnsafeAst)
    }

    /// Takes note of the directory that the session writes to, by the last
    /// component of its path: a session that writes to the directory of
    /// dependencies is not analysed.
    pub fn late_callback(&mut self, out_dir_name: Option<&str>)
        ensures
            final(self).after_analysis_callback == old(self).after_analysis_callback,
            final(self).do_analysis == (old(self).do_analysis && !(out_dir_name matches Some(name)
                && name@ == deps_dir_name())),
    {
        if let Some(dir_name) = out_dir_name {
            if str_equal(dir_name, "deps") {
                self.do_analysis = false;
            }
        }
    }

    /// Hands the callback over to the controller of the session, together
    /// with the decision taken so far. The session keeps no callback.
    pub fn build_controller(&mut self) -> (control: CompileController)
        ensures
            control == (CompileController {
                do_analysis: old(self).do_analysis,
                callback: old(self).after_analysis_callback,
            }),
            *final(self) == (AnalyzeUnsafe {
                do_analysis: old(self).do_analysis,
                after_analysis_callback: Callback::Nothing,
            }),
    {
        let callback = self.after_analysis_callback;
        self.after_analysis_callback = Callback::Nothing;
        CompileController { do_analysis: self.do_analysis, callback }
    }
}

impl CompileController {
    /// Whether a record is produced for a crate of this name: the analysis
    /// is on, the callback is the emitting one, and the crate is no build
    /// script.
    pub fn runs_for(&self, crate_name: Option<&str>) -> (r: bool)
        ensures
            r == (self.do_analysis && self.callback == Callback::EmitUnsafeAst && !(
            crate_name matches Some(name) && name@ == build_script_name())),
    {
        if !self.do_analysis {
            return false;
        }
        match self.callback {
            Callback::Nothing => false,
            Callback::EmitUnsafeAst => match crate_name {
                Some(name) => !str_equal(name, "build_script_build"),
                None => true,
            },
        }
    }

    /// The text to print for a type-checked crate, if any. A crate without
    /// a name, or without a kind, is given `????` in its place; of several
    /// kinds the first is taken.
    pub fn after_analysis(
        &self,
        crate_name: Option<&str>,
        crate_types: &Vec<String>,
        krate: &SourceCrate,
    ) -> (r: Option<String>)
        ensures
            text_view(r) == (if self.do_analysis && self.callback == Callback::EmitUnsafeAst {
                emitted(
                    str_view(crate_name),
                    Seq::new(crate_types@.len(), |k: int| crate_types@[k]@),
                    *krate,
                )
            } else {
                None
            }),
            r is Some <==> self.do_analysis && self.callback == Callback::EmitUnsafeAst && !(
            crate_name matches Some(name) && name@ == build_script_name()),
    {
        proof {
            reveal_strlit("????");
            reveal_strlit("build_script_build");
        }
        if !self.do_analysis {
            return None;
        }
        match self.callback {
            Callback::Nothing => None,
            Callback::EmitUnsafeAst => {
                let name = match crate_name {
                    Some(n) => String::from_str(n),
                    None => String::from_str("????"),
                };
                let ty = if crate_types.len() > 0 {
                    crate_types[0].clone()
                } else {
                    String::from_str("????")
                };
                assert(unknown_name().len() == 4 && build_script_name().len() == 18);
                assert(name@ == build_script_name() <==> (crate_name matches Some(n) && n@
                    == build_script_name()));
                emit_unsafe_ast(name, ty, krate)
            },
        }
    }
}

} // verus!

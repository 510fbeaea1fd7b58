use unsafe_ast::driver::{emit_unsafe_ast, AnalyzeUnsafe, Callback, CompileController};
use unsafe_ast::syntax::{
    Block, BlockCheckMode, Child, Expr, ExprKind, Function, SourceCrate, Span, Stmt, Ty, Unsafety,
};
use unsafe_ast::syntax::{Abi, FnSig};
use unsafe_ast::unsafe_ast::{is_unsafe, Unsafe, FFI};

fn span(location: &str, text: &str) -> Span {
    Span { location: location.to_string(), text: Some(text.to_string()), expansion: None }
}

fn krate() -> SourceCrate {
    let deref = Expr { kind: ExprKind::Deref(Ty::RawPtr), span: span("b.rs:2:5: 2:7", "*p"), children: vec![] };
    let body = Block {
        stmts: vec![Stmt { children: vec![Child::Expr(deref)] }],
        expr: None,
        rules: BlockCheckMode::DefaultBlock,
        span: span("b.rs:1:8: 3:2", "{ *p; }"),
    };
    SourceCrate {
        functions: vec![Function {
            unsafety: Unsafety::Normal,
            name: "main".to_string(),
            span: span("b.rs:1:1: 3:2", "fn main() { *p; }"),
            body,
        }],
    }
}

const RECORD: &str = "{\"name\":\"demo\",\"ty\":\"CrateTypeExecutable\",\"functions\":[{\"name\":\"main\",\"unsaf\":false,\"span\":\"b.rs:1:1: 3:2\",\"macro_origin\":\"NotMacro\",\"block\":{\"size\":1,\"unsaf\":false,\"contents\":[{\"index\":0,\"span\":\"b.rs:2:5: 2:7\",\"snippet\":\"*p\",\"macro_origin\":\"NotMacro\",\"item\":\"Deref\"}]}}]}";

#[test]
fn build_script_yields_no_record() {
    let r = emit_unsafe_ast("build_script_build".to_string(), "CrateTypeExecutable".to_string(), &krate());
    assert_eq!(r, None);
}

#[test]
fn other_crate_yields_its_record() {
    let r = emit_unsafe_ast("demo".to_string(), "CrateTypeExecutable".to_string(), &krate());
    assert_eq!(r, Some(RECORD.to_string()));
    let close = emit_unsafe_ast("build_script_build2".to_string(), "x".to_string(), &SourceCrate { functions: vec![] });
    assert_eq!(close, Some("{\"name\":\"build_script_build2\",\"ty\":\"x\",\"functions\":[]}".to_string()));
}

#[test]
fn session_starts_with_the_analysis_on() {
    let a = AnalyzeUnsafe::unsafe_ast_emitter();
    assert!(a.do_analysis);
    assert_eq!(a.after_analysis_callback, Callback::EmitUnsafeAst);
    let b = AnalyzeUnsafe::new(Callback::Nothing);
    assert!(b.do_analysis);
    assert_eq!(b.after_analysis_callback, Callback::Nothing);
}

#[test]
fn writing_to_the_dependency_directory_turns_the_analysis_off() {
    let mut a = AnalyzeUnsafe::unsafe_ast_emitter();
    a.late_callback(None);
    assert!(a.do_analysis);
    a.late_callback(Some("debug"));
    assert!(a.do_analysis);
    a.late_callback(Some("deps"));
    assert!(!a.do_analysis);
    a.late_callback(Some("debug"));
    assert!(!a.do_analysis);
    let control = a.build_controller();
    assert_eq!(control, CompileController { do_analysis: false, callback: Callback::EmitUnsafeAst });
    assert_eq!(control.after_analysis(Some("demo"), &vec!["CrateTypeExecutable".to_string()], &krate()), None);
}

#[test]
fn controller_takes_the_callback_from_the_session() {
    let mut a = AnalyzeUnsafe::unsafe_ast_emitter();
    let control = a.build_controller();
    assert_eq!(control, CompileController { do_analysis: true, callback: Callback::EmitUnsafeAst });
    assert_eq!(a.after_analysis_callback, Callback::Nothing);
    assert!(a.do_analysis);
    let second = a.build_controller();
    assert_eq!(second.after_analysis(Some("demo"), &vec![], &krate()), None);
}

#[test]
fn controller_prints_the_record_of_the_crate() {
    let control = AnalyzeUnsafe::unsafe_ast_emitter().build_controller();
    let kinds = vec!["CrateTypeExecutable".to_string(), "CrateTypeRlib".to_string()];
    assert_eq!(control.after_analysis(Some("demo"), &kinds, &krate()), Some(RECORD.to_string()));
    assert_eq!(control.after_analysis(Some("build_script_build"), &kinds, &krate()), None);
}

#[test]
fn controller_says_beforehand_whether_it_prints() {
    let on = AnalyzeUnsafe::unsafe_ast_emitter().build_controller();
    assert!(on.runs_for(Some("demo")));
    assert!(on.runs_for(None));
    assert!(!on.runs_for(Some("build_script_build")));
    let mut session = AnalyzeUnsafe::unsafe_ast_emitter();
    session.late_callback(Some("deps"));
    assert!(!session.build_controller().runs_for(Some("demo")));
    let silent = AnalyzeUnsafe::new(Callback::Nothing).build_controller();
    assert!(!silent.runs_for(Some("demo")));
    assert_eq!(silent.after_analysis(Some("demo"), &vec![], &krate()), None);
}

#[test]
fn missing_name_and_kind_are_written_as_question_marks() {
    let control = AnalyzeUnsafe::unsafe_ast_emitter().build_controller();
    let r = control.after_analysis(None, &vec![], &SourceCrate { functions: vec![] });
    assert_eq!(r, Some("{\"name\":\"????\",\"ty\":\"????\",\"functions\":[]}".to_string()));
}

#[test]
fn flags_follow_the_declared_safety_and_convention() {
    assert!(is_unsafe(Unsafety::Unsafe));
    assert!(!is_unsafe(Unsafety::Normal));
    assert!(Unsafe::new(Unsafety::Unsafe).unsaf);
    assert!(!Unsafe::new(Unsafety::Normal).unsaf);
    assert!(FFI::new(Abi::C).is_ffi);
    assert!(FFI::new(Abi::System).is_ffi);
    for abi in [
        Abi::Cdecl, Abi::Stdcall, Abi::Fastcall, Abi::Vectorcall, Abi::Aapcs, Abi::Win64,
        Abi::Rust, Abi::RustIntrinsic, Abi::RustCall, Abi::PlatformIntrinsic,
    ] {
        assert!(!FFI::new(abi).is_ffi);
    }
    let sig = FnSig { unsafety: Unsafety::Unsafe, abi: Abi::System };
    assert!(Unsafe::from_fn_ty(&Ty::FnDef(sig)).unsaf);
    assert!(FFI::from_fn_ty(&Ty::FnPtr(sig)).is_ffi);
    let safe = FnSig { unsafety: Unsafety::Normal, abi: Abi::Rust };
    assert!(!Unsafe::from_fn_ty(&Ty::FnPtr(safe)).unsaf);
    assert!(!FFI::from_fn_ty(&Ty::FnDef(safe)).is_ffi);
    assert!(!Unsafe::from_fn_ty(&Ty::RawPtr).unsaf);
    assert!(!FFI::from_fn_ty(&Ty::Other).is_ffi);
}

use veryl_front::cmd_dump::{CmdDump, DumpKind, OptDump, PassStep};
use veryl_front::migrator::{Migrator, Token, VerylToken};

fn tok(line: u32, column: u32, text: &str) -> Token {
    Token { line, column, text: text.to_string() }
}

#[test]
fn migrate_places_tokens() {
    let mut m = Migrator::new();
    let input = vec![
        VerylToken { token: tok(1, 1, "module"), comments: vec![] },
        VerylToken { token: tok(1, 8, "top"), comments: vec![tok(1, 12, "// c\n")] },
        VerylToken { token: tok(3, 5, "x"), comments: vec![] },
    ];
    m.migrate(&input);
    assert_eq!(m.as_str(), "module top // c\n\n    x");
}

#[test]
fn migrate_multiline_token_moves_position() {
    let mut m = Migrator::new();
    let input = vec![
        VerylToken { token: tok(1, 3, "/* a\nbc */"), comments: vec![] },
        VerylToken { token: tok(2, 8, ";"), comments: vec![] },
    ];
    m.migrate(&input);
    assert_eq!(m.as_str(), "  /* a\nbc */       ;");
}

#[test]
fn migrate_earlier_column_adds_no_space() {
    let mut m = Migrator::new();
    let input = vec![
        VerylToken { token: tok(1, 1, "abc"), comments: vec![] },
        VerylToken { token: tok(1, 2, "d"), comments: vec![] },
    ];
    m.migrate(&input);
    assert_eq!(m.as_str(), "abcd");
}

fn opt(n: usize, st: bool, al: bool, ns: bool, td: bool) -> OptDump {
    OptDump {
        files: (0..n).map(|i| format!("f{}.veryl", i)).collect(),
        symbol_table: st,
        assign_list: al,
        namespace_table: ns,
        type_dag: td,
    }
}

#[test]
fn passes_run_project_wide_in_order() {
    let c = CmdDump::new(opt(2, false, false, false, false));
    let mut steps = Vec::new();
    let mut s = c.first_step();
    while let Some(x) = s {
        steps.push((x.pass, x.file));
        s = c.next_step(x);
    }
    assert_eq!(steps, vec![(1, 0), (1, 1), (2, 0), (2, 1), (3, 0), (3, 1)]);
    assert_eq!(CmdDump::new(opt(0, true, false, false, false)).first_step(), None);
    assert_eq!(c.next_step(PassStep { pass: 3, file: 1 }), None);
}

#[test]
fn dumps_in_order() {
    let c = CmdDump::new(opt(1, true, false, true, true));
    assert_eq!(c.dumps(), vec![DumpKind::SymbolTable, DumpKind::NamespaceTable, DumpKind::TypeDag]);
    assert!(CmdDump::new(opt(1, false, false, false, false)).dumps().is_empty());
}

#[test]
fn migrate_column_advances_by_bytes() {
    let mut m = Migrator::new();
    let input = vec![
        VerylToken { token: tok(1, 1, "é"), comments: vec![] },
        VerylToken { token: tok(1, 5, "x"), comments: vec![] },
    ];
    m.migrate(&input);
    // "é" is two bytes, so the column is 3 after it and two spaces reach 5
    assert_eq!(m.as_str(), "é  x");
}

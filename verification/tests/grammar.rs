use wasm_syntax::grammar::BoundSymbol;
use wasm_syntax::grammar::BuiltinSymbol;
use wasm_syntax::grammar::Grammar;
use wasm_syntax::grammar::Literal;
use wasm_syntax::grammar::NonTerminal;
use wasm_syntax::grammar::Production;
use wasm_syntax::grammar::Symbol;

fn limits_grammar() -> Grammar {
    // the Limits non-terminal: 0x00 n:u32 | 0x01 n:u32 m:u32
    Grammar {
        non_terminals: vec![NonTerminal {
            name: String::from("Limits"),
            productions: vec![
                Production {
                    symbols: vec![
                        Symbol::Literal(Literal::U8(0x00)),
                        Symbol::Bound(String::from("n"), BoundSymbol::Builtin(BuiltinSymbol::U32)),
                    ],
                    rhs: String::from("Min"),
                },
                Production {
                    symbols: vec![
                        Symbol::Literal(Literal::U8(0x01)),
                        Symbol::Bound(String::from("n"), BoundSymbol::Builtin(BuiltinSymbol::U32)),
                        Symbol::Bound(String::from("m"), BoundSymbol::Builtin(BuiltinSymbol::U32)),
                    ],
                    rhs: String::from("MinMax"),
                },
            ],
        }],
    }
}

#[test]
fn test_literal_bytes() {
    assert_eq!(Literal::U8(0xAB).as_u8s(), vec![0xAB]);
    assert_eq!(Literal::U32(12).as_u8s(), vec![12]);
    assert_eq!(Literal::U32(101010).as_u8s(), vec![0x92, 0x95, 0x06]);
    assert_eq!(Literal::I32(-123456).as_u8s(), vec![0xC0, 0xBB, 0x78]);
    assert_eq!(Literal::U64(300).as_u8s(), vec![0xAC, 0x02]);
    assert_eq!(Literal::I64(-1).as_u8s(), vec![0x7F]);
}

#[test]
fn test_field_names_skip_literals() {
    let g = limits_grammar();
    let p = &g.non_terminals[0].productions[1];
    let names = p.field_names();
    assert_eq!(names, vec![String::from("n"), String::from("m")]);
}

#[test]
fn test_production_prefix() {
    let g = limits_grammar();
    let mut prefix = vec![];
    g.production_prefix(&g.non_terminals[0].productions[1], &mut prefix);
    assert_eq!(prefix, vec![0x01]);
    // a multi-literal head concatenates its canonical bytes
    let p = Production {
        symbols: vec![
            Symbol::Literal(Literal::U8(0xFC)),
            Symbol::Literal(Literal::U32(12)),
            Symbol::Bound(String::from("x"), BoundSymbol::Type(String::from("TableIdx"))),
        ],
        rhs: String::from("TableInit"),
    };
    let mut prefix = vec![];
    g.production_prefix(&p, &mut prefix);
    assert_eq!(prefix, vec![0xFC, 0x0C]);
}

#[test]
fn test_prefixes_disjoint() {
    let g = limits_grammar();
    assert!(g.prefixes_disjoint());
    // two alternatives sharing the discriminator byte are rejected
    let bad = Grammar {
        non_terminals: vec![NonTerminal {
            name: String::from("Bad"),
            productions: vec![
                Production {
                    symbols: vec![Symbol::Literal(Literal::U8(0x00))],
                    rhs: String::from("A"),
                },
                Production {
                    symbols: vec![
                        Symbol::Literal(Literal::U8(0x00)),
                        Symbol::Literal(Literal::U8(0x01)),
                    ],
                    rhs: String::from("B"),
                },
            ],
        }],
    };
    assert!(!bad.prefixes_disjoint());
}

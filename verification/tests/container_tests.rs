use luafront::forest::{EntityMapForest, EntitySetForest};
use luafront::parse::ast::{Ast, Builder, Expression, Field};
use luafront::parse::Error as ParseError;
use luafront::runtime::Type;
use luafront::string_pool::{StringPool, StringRef};
use luafront::vec_cell::VecCell;

#[test]
fn string_interning_is_idempotent() {
    let mut pool = StringPool::new();
    let a = pool.intern(b"alpha");
    let b = pool.intern(b"alpha");
    assert_eq!(a, b);
    assert_eq!(pool.get(a).as_slice(), b"alpha");
}

#[test]
fn distinct_strings_get_distinct_refs() {
    let mut pool = StringPool::new();
    let a = pool.intern(b"alpha");
    let b = pool.intern(b"beta");
    let c = pool.intern(b"");
    assert_ne!(a, b);
    assert_ne!(a, c);
    assert_ne!(b, c);
    assert_eq!(pool.len(), 3);
    // interning the same bytes twice never grows the pool
    pool.intern(b"beta");
    assert_eq!(pool.len(), 3);
    pool.clear();
    assert_eq!(pool.len(), 0);
}

#[test]
fn set_forest_keeps_sets_ordered_and_independent() {
    let mut pool = EntitySetForest::new();
    let s1 = pool.new_set();
    let s2 = pool.new_set();
    assert_eq!(pool.len(), 2);
    assert!(pool.insert(s1, 5));
    assert!(pool.insert(s1, 3));
    assert!(pool.insert(s1, 9));
    // a duplicate is reported and changes nothing
    assert!(!pool.insert(s1, 5));
    assert!(pool.insert(s2, 7));
    assert_eq!(pool.elems(s1), vec![3, 5, 9]);
    assert_eq!(pool.elems(s2), vec![7]);
    assert!(pool.contains(s1, 9));
    assert!(!pool.contains(s2, 9));
    assert!(pool.remove(s1, 5));
    assert!(!pool.remove(s1, 5));
    assert_eq!(pool.elems(s1), vec![3, 9]);
    assert_eq!(pool.elems(s2), vec![7]);
}

#[test]
fn map_forest_keeps_entries_ordered_by_key() {
    let mut pool = EntityMapForest::new();
    let m = pool.new_map();
    assert_eq!(pool.insert(m, 4, 40), None);
    assert_eq!(pool.insert(m, 2, 20), None);
    assert_eq!(pool.insert(m, 6, 60), None);
    // rebinding yields the old value
    assert_eq!(pool.insert(m, 4, 44), Some(40));
    assert_eq!(pool.get(m, 4), Some(44));
    assert_eq!(pool.get(m, 5), None);
    assert_eq!(pool.entries(m), vec![(2, 20), (4, 44), (6, 60)]);
    assert_eq!(pool.remove(m, 2), Some(20));
    assert_eq!(pool.remove(m, 2), None);
    assert_eq!(pool.entries(m), vec![(4, 44), (6, 60)]);
}

#[test]
fn vec_cell_works_as_a_stack() {
    let mut cell: VecCell<u32> = VecCell::new();
    assert_eq!(cell.len(), 0);
    cell.push(1);
    cell.push(2);
    cell.push(3);
    assert_eq!(cell.len(), 3);
    assert_eq!(cell.pop(), Some(3));
    cell.insert(0, 9);
    assert_eq!(cell.remove(1), 1);
    assert_eq!(cell.swap_remove(0), 9);
    assert_eq!(cell.pop(), Some(2));
    assert_eq!(cell.pop(), None);
    let mut cell = VecCell::with_capacity(8);
    cell.push(5u8);
    cell.get_mut().push(6);
    assert_eq!(cell.into_inner(), vec![5, 6]);
    let from_vec: VecCell<u8> = VecCell::from(vec![1, 2]);
    assert_eq!(from_vec.len(), 2);
}

#[test]
fn runtime_type_classification() {
    assert!(!Type::False.is_truthy());
    assert!(!Type::Nil.is_truthy());
    assert!(Type::True.is_truthy());
    assert!(Type::Int.is_truthy());
    assert!(Type::Table.is_truthy());
    assert!(Type::False.is_empty());
    assert!(Type::Nil.is_empty());
    assert!(Type::True.is_empty());
    assert!(!Type::Float.is_empty());
    assert!(Type::String.is_object());
    assert!(Type::Table.is_object());
    assert!(Type::Function.is_object());
    assert!(!Type::Int.is_object());
    assert!(!Type::LightUserdata.is_object());
}

#[test]
fn ast_builder_makes_expression_nodes() {
    let mut b = Builder::new(Ast::new());
    let one = b.numeral(luafront::lex::Numeral::Int(1));
    let two = b.numeral(luafront::lex::Numeral::Int(2));
    let sum = b.add(one, two);
    let neg = b.unm(sum);
    let t = b.true_();
    let both = b.and(neg, t);
    let ast = b.into_ast();
    match *ast.expression(sum) {
        Expression::Add(l, r) => {
            assert_eq!(l, one);
            assert_eq!(r, two);
        }
        ref other => panic!("unexpected {:?}", other),
    }
    match *ast.expression(both) {
        Expression::And(l, r) => {
            assert_eq!(l, neg);
            assert_eq!(r, t);
        }
        ref other => panic!("unexpected {:?}", other),
    }
}

#[test]
fn parenthesizing_scalarizes_only_multi_values() {
    let mut b = Builder::new(Ast::new());
    let n = b.nil();
    let args = Vec::new();
    let call = b.call(n, None, args);
    let wrapped_call = b.parenthesized(call);
    assert_ne!(wrapped_call, call);
    match *b.ast().expression(wrapped_call) {
        Expression::Scalarize(inner) => assert_eq!(inner, call),
        ref other => panic!("unexpected {:?}", other),
    }
    // a single-value expression passes through unchanged
    let wrapped_nil = b.parenthesized(n);
    assert_eq!(wrapped_nil, n);
}

#[test]
fn table_fields_build_in_order() {
    let mut b = Builder::new(Ast::new());
    let v1 = b.false_();
    let f1 = b.ordinal_field(v1);
    let key = b.numeral(luafront::lex::Numeral::Int(3));
    let v2 = b.nil();
    let f2 = b.keyed_field(key, v2);
    let name = StringRef(0);
    let v3 = b.true_();
    let f3 = b.member_field(name, v3);
    let fields = b.field_list(Vec::new(), f1);
    let fields = b.field_list(fields, f2);
    let fields = b.field_list(fields, f3);
    let table = b.table(fields);
    let ast = b.into_ast();
    match *ast.expression(table) {
        Expression::Table(ref fs) => assert_eq!(*fs, vec![f1, f2, f3]),
        ref other => panic!("unexpected {:?}", other),
    }
    match *ast.field(f2) {
        Field::Keyed(k, v) => {
            assert_eq!(k, key);
            assert_eq!(v, v2);
        }
        ref other => panic!("unexpected {:?}", other),
    }
    match *ast.field(f3) {
        Field::Keyed(k, v) => {
            match *ast.expression(k) {
                Expression::String(s) => assert_eq!(s, name),
                ref other => panic!("unexpected {:?}", other),
            }
            assert_eq!(v, v3);
        }
        ref other => panic!("unexpected {:?}", other),
    }
}

#[test]
fn ast_clears_to_empty() {
    let mut b = Builder::new(Ast::new());
    b.nil();
    b.true_();
    let mut ast = b.into_ast();
    ast.clear();
    // the next node lands in the first slot again
    let mut b = Builder::new(ast);
    let n = b.nil();
    assert_eq!(n.0, 0);
}

#[test]
fn parse_error_wraps_lexical_errors() {
    let e = ParseError::from(luafront::lex::Error::UnclosedStringLiteral);
    assert_eq!(
        e,
        ParseError::LexicalError(luafront::lex::Error::UnclosedStringLiteral)
    );
    let span_error = ParseError::UnexpectedToken(3, 7);
    assert_ne!(span_error, ParseError::UnexpectedEndOfInput);
}

//! Scope indices, stacks of name scopes and type ids.

use protosnirk::check::collector::ErrorCollector;
use protosnirk::check::errors::CheckerError;
use protosnirk::check::id::UniqueId;
use protosnirk::check::scope::ScopeIndex;
use protosnirk::check::symbol::table_builder::SymbolTableBuilder;
use protosnirk::check::types::environment::TypeId;
use protosnirk::compile::llvm::lexical_scope_manager::LexicalScopeManager;
use protosnirk::lex::{TextLocation, Token, TokenData};

fn index(ixs: &[usize]) -> ScopeIndex {
    ScopeIndex::new(ixs.to_vec())
}

#[test]
fn scope_index_increment_and_decrement_undo_each_other() {
    let mut idx = index(&[2, 5]);
    idx.increment();
    assert_eq!(idx, index(&[2, 6]));
    idx.decrement();
    assert_eq!(idx, index(&[2, 5]));
    idx.decrement();
    idx.increment();
    assert_eq!(idx, index(&[2, 5]));
}

#[test]
fn scope_index_push_and_pop_undo_each_other() {
    let mut idx = ScopeIndex::default();
    assert_eq!(idx, index(&[0]));
    idx.push();
    assert_eq!(idx, index(&[0, 0]));
    idx.increment();
    assert_eq!(idx, index(&[0, 1]));
    idx.pop();
    assert_eq!(idx, index(&[0]));
    assert_eq!(index(&[3]).pushed(), index(&[3, 0]));
}

#[test]
fn builder_reads_back_definitions_and_forgets_inner_ones() {
    let mut builder = SymbolTableBuilder::new();
    builder.define_local("x".to_string(), index(&[1]));
    assert_eq!(builder.get("x"), Some(&index(&[1])));
    assert_eq!(builder.get_local("x"), Some(&index(&[1])));
    builder.new_scope();
    assert_eq!(builder.get("x"), Some(&index(&[1])));
    assert_eq!(builder.get_local("x"), None);
    builder.define_local("x".to_string(), index(&[1, 1]));
    builder.define_local("y".to_string(), index(&[1, 2]));
    assert_eq!(builder.get("x"), Some(&index(&[1, 1])));
    assert_eq!(builder.get_global("x"), Some(&index(&[1])));
    assert_eq!(builder.depth(), 2);
    assert!(builder.pop().is_some());
    assert_eq!(builder.get("x"), Some(&index(&[1])));
    assert_eq!(builder.get("y"), None);
}

#[test]
fn lexical_scopes_find_the_outermost_definition() {
    let mut scopes: LexicalScopeManager<u32> = LexicalScopeManager::new();
    scopes.new_scope();
    scopes.define_local("a".to_string(), 1);
    scopes.new_scope();
    scopes.define_local("a".to_string(), 2);
    scopes.define_local("b".to_string(), 3);
    assert_eq!(scopes.get("a"), Some((&1, 0)));
    assert_eq!(scopes.get("b"), Some((&3, 1)));
    assert_eq!(scopes.get_local("a"), Some(&2));
    assert_eq!(scopes.get("c"), None);
    assert!(scopes.pop().is_some());
    assert_eq!(scopes.get("b"), None);
    assert_eq!(scopes.get_local("a"), Some(&1));
}

#[test]
fn type_ids_count_up_from_the_default() {
    let mut t = TypeId::default();
    assert!(t.is_default());
    assert_eq!(t.next(), TypeId::new(1));
    assert_eq!(t.increment(), TypeId::new(1));
    assert!(!t.is_default());
    UniqueId::increment(&mut t);
    assert_eq!(t, TypeId::new(2));
    UniqueId::decrement(&mut t);
    assert_eq!(t, TypeId::new(1));
}

#[test]
fn collector_keeps_kinds_apart_in_order() {
    let token = Token { location: TextLocation { index: 0, line: 0, column: 0 }, text: "x".to_string(), data: TokenData::Ident };
    let mut collector = ErrorCollector::new();
    collector.add_error(CheckerError::new(token.clone(), vec![], "first".to_string()));
    collector.add_warning(CheckerError::new(token.clone(), vec![], "careful".to_string()));
    collector.add_error(CheckerError::new(token.clone(), vec![], "second".to_string()));
    let texts: Vec<&str> = collector.get_errors().iter().map(|e| e.text()).collect();
    assert_eq!(texts, vec!["first", "second"]);
    assert_eq!(collector.get_warnings().len(), 1);
    assert_eq!(collector.get_lints().len(), 0);
}

use flylang::flylang::errors::{must_stop, ErrorType, LangError, RaisableErr};
use flylang::flylang::lexer::errors::{UnclosedScope, UnknownCharacter};
use flylang::flylang::module::char::LangModuleChar;
use flylang::flylang::module::slice::LangModuleSlice;
use flylang::flylang::module::{characters, LangModule, ModIter};
use flylang::flylang::parser::errors::{EmptyScope, Expected, UnableToParse};
use flylang::flylang::parser::mods::{BehaviorSet, ParserBehaviors};
use flylang::flylang::utils::scoper::Scope;
use flylang::flylang::FlyLang;
use std::rc::Rc;

fn module(code: &str) -> Rc<LangModule> {
    FlyLang::anonymous_module(code, Some("tests-modules")).into_rc()
}

#[test]
fn module_holds_its_code_and_label() {
    let module = FlyLang::anonymous_module("a: 1;\nb", Some("label"));
    assert_eq!(module.code(), "a: 1;\nb");
    assert_eq!(module.path(), "label");
    assert_eq!(module.len(), 7);
    assert_eq!(module.char_at(0), 'a');
    assert_eq!(module.char_at(5), '\n');
    assert_eq!(FlyLang::anonymous_module("", None).path(), "anonymous");
    let copy = module.clone();
    assert_eq!(copy.code(), "a: 1;\nb");
    assert_eq!(copy.path(), "label");
}

#[test]
fn positions_count_characters() {
    let module = FlyLang::anonymous_module("é→a", None);
    assert_eq!(module.len(), 3);
    assert_eq!(module.char_at(1), '→');
    assert_eq!(characters("é→a"), vec!['é', '→', 'a']);
    assert_eq!(characters(""), Vec::<char>::new());
    let module = module.into_rc();
    let slice = LangModuleSlice::new_with(&module, 1..3);
    assert_eq!(slice.code(), "→a");
}

#[test]
fn module_chars_walk_the_code() {
    let module = FlyLang::anonymous_module("abc", None);
    let mut chars = module.chars();
    let mut seen = vec![];
    while let Some(modchar) = chars.next() {
        seen.push((modchar.index(), modchar.code()));
    }
    assert_eq!(seen, vec![(0, 'a'), (1, 'b'), (2, 'c')]);
    assert!(chars.next().is_none());

    let module = module.into_rc();
    let slice = LangModuleSlice::new_with(&module, 1..2);
    let mut chars = ModIter::from_slice(&slice);
    assert_eq!(chars.next().unwrap().code(), 'b');
    assert!(chars.next().is_none());
    let mut none = ModIter::new(&FlyLang::anonymous_module("", None).into_rc());
    assert!(none.next().is_none());
}

#[test]
fn slice_range_and_code() {
    let module = module("hello world");
    let mut slice = LangModuleSlice::new(&module);
    assert_eq!(slice.range(), 0..0);
    assert_eq!(slice.code(), "");
    assert!(slice.start().is_none());
    assert!(slice.end().is_none());
    slice.set(6..11);
    assert_eq!(slice.range(), 6..11);
    assert_eq!(slice.code(), "world");
    assert_eq!(slice.start().unwrap().index(), 6);
    assert_eq!(slice.start().unwrap().code(), 'w');
    assert_eq!(slice.end().unwrap().index(), 10);
    assert_eq!(slice.end().unwrap().code(), 'd');
    assert_eq!(slice.module().code(), "hello world");
    let copy = slice.duplicate();
    assert_eq!(copy.range(), 6..11);
    assert_eq!(copy.clone().code(), "world");
    slice.set(11..11);
    assert_eq!(slice.code(), "");
    assert!(slice.start().is_none());
    // The copy did not move.
    assert_eq!(copy.range(), 6..11);
}

#[test]
fn slice_union_and_join() {
    let module = module("hello world");
    let first = LangModuleSlice::new_with(&module, 0..2);
    let second = LangModuleSlice::new_with(&module, 6..8);
    assert_eq!(first.union(&second).range(), 0..8);
    assert_eq!(second.union(&first).range(), 0..8);
    assert_eq!(first.join(&second).range(), 0..8);
    assert_eq!(second.join(&first).range(), 0..8);
    let inner = LangModuleSlice::new_with(&module, 1..2);
    assert_eq!(first.join(&inner).range(), 0..2);
    assert_eq!(inner.join(&first).range(), 0..2);
    // A slice of a longer module is joined as far as the module reaches.
    let short = self::module("ab");
    let small = LangModuleSlice::new_with(&short, 0..1);
    assert_eq!(small.join(&second).range(), 0..2);
    assert_eq!(small.join(&second).code(), "ab");
}

#[test]
fn slice_of_a_char() {
    let module = module("abc");
    let mut modchar = LangModuleChar::new(&module);
    assert_eq!(modchar.index(), 0);
    modchar.set(2);
    assert_eq!(modchar.index(), 2);
    assert_eq!(modchar.code(), 'c');
    assert_eq!(modchar.module().code(), "abc");
    let slice = LangModuleSlice::from_char(&modchar);
    assert_eq!(slice.range(), 2..3);
    assert_eq!(slice.code(), "c");
}

#[test]
fn lines_and_columns() {
    let module = module("ab\ncd\n\nxyz");
    let at = |index: usize| {
        let mut modchar = LangModuleChar::new(&module);
        modchar.set(index);
        (modchar.line(), modchar.line_index())
    };
    assert_eq!(at(0), (0, 0));
    assert_eq!(at(1), (0, 1));
    assert_eq!(at(2), (0, 2));
    assert_eq!(at(3), (1, 0));
    assert_eq!(at(4), (1, 1));
    assert_eq!(at(5), (1, 2));
    assert_eq!(at(6), (2, 0));
    assert_eq!(at(7), (3, 0));
    assert_eq!(at(9), (3, 2));
}

#[test]
fn error_kinds_and_codes() {
    let module = module("abc");
    let slice = LangModuleSlice::new_with(&module, 0..1);

    let unknown = UnknownCharacter(slice.duplicate());
    assert_eq!(unknown._kind(), ErrorType::Stop);
    assert_eq!(unknown._code(), 2);
    assert!(must_stop(&unknown));

    let unclosed = LangError::UnclosedScope(UnclosedScope(Scope::Block(slice.duplicate())));
    assert_eq!(unclosed._kind(), ErrorType::Stop);
    assert_eq!(unclosed._code(), 3);

    let expected = Expected {
        after: slice.duplicate(),
        expected: None,
        but_found: None,
    };
    assert_eq!(expected._code(), 3);
    assert_eq!(LangError::Expected(expected)._code(), 3);

    let unable = UnableToParse(slice.duplicate(), String::from("why"));
    assert_eq!(unable._code(), 4);
    assert_eq!(unable._kind(), ErrorType::Stop);

    let empty = EmptyScope(slice.duplicate());
    assert_eq!(empty._kind(), ErrorType::Warn);
    assert_eq!(empty._code(), 1);
    assert!(!must_stop(&empty));
    assert!(!must_stop(&LangError::EmptyScope(empty)));
}

#[test]
fn error_type_labels() {
    assert_eq!(ErrorType::Hint.label(), "Hint");
    assert_eq!(ErrorType::Stop.label(), "Error");
    assert_eq!(ErrorType::Warn.label(), "Warning");
}

#[test]
fn behavior_sets() {
    let mut behaviors = BehaviorSet::new();
    assert!(!behaviors.contains(ParserBehaviors::Lazy));
    assert!(!behaviors.contains(ParserBehaviors::AllowAnyVariableEmplacement(false)));
    assert!(!behaviors.contains(ParserBehaviors::AllowAnyVariableEmplacement(true)));
    behaviors.insert(ParserBehaviors::Lazy);
    behaviors.insert(ParserBehaviors::AllowAnyVariableEmplacement(true));
    assert!(behaviors.contains(ParserBehaviors::Lazy));
    assert!(behaviors.contains(ParserBehaviors::AllowAnyVariableEmplacement(true)));
    assert!(!behaviors.contains(ParserBehaviors::AllowAnyVariableEmplacement(false)));
    behaviors.remove(ParserBehaviors::Lazy);
    assert!(!behaviors.contains(ParserBehaviors::Lazy));
    assert!(behaviors.contains(ParserBehaviors::AllowAnyVariableEmplacement(true)));
    behaviors.insert(ParserBehaviors::AllowAnyVariableEmplacement(false));
    behaviors.remove(ParserBehaviors::AllowAnyVariableEmplacement(true));
    assert_eq!(
        behaviors,
        BehaviorSet {
            lazy: false,
            any: true,
            any_recursive: false
        }
    );
}

#[test]
fn slice_that_covers_many() {
    let module = module("hello world");
    let slices = vec![
        LangModuleSlice::new_with(&module, 4..6),
        LangModuleSlice::new_with(&module, 2..3),
        LangModuleSlice::new_with(&module, 7..9),
        LangModuleSlice::new_with(&module, 5..5),
    ];
    assert_eq!(LangModuleSlice::from_slices(&slices).range(), 2..9);
    assert_eq!(LangModuleSlice::from_slices(&slices[..1].to_vec()).range(), 4..6);

    let at = |index: usize| {
        let mut modchar = LangModuleChar::new(&module);
        modchar.set(index);
        modchar
    };
    assert_eq!(
        LangModuleSlice::from_chars(&vec![at(3), at(1), at(6)]).range(),
        1..7
    );
    assert_eq!(LangModuleSlice::from_chars(&vec![at(10)]).range(), 10..11);
}

#[test]
fn node_made_of_another() {
    let module = module("abc");
    let node = flylang::flylang::parser::ast::Node::new(3u8, &LangModuleSlice::new_with(&module, 0..1));
    let other = node.clone_as(|kind, location| (kind as u32 + 1, location));
    assert_eq!(*other.kind(), 4u32);
    assert_eq!(other.location().range(), 0..1);
}

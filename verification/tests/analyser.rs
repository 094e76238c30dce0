use flylang::flylang::utils::analyser::Analyser;
use flylang::flylang::utils::scoper::Scope;

#[test]
fn analyser_starts_empty() {
    let analyser = Analyser::new(vec![1, 2, 3, 4, 5]);
    assert_eq!(analyser.range(), 0..0);
    assert_eq!(analyser.get(), &[] as &[i32]);
    assert_eq!(analyser.stream(), &[1, 2, 3, 4, 5]);
    assert!(!analyser.process_finished());
}

#[test]
fn analyser_set_and_get() {
    let mut analyser = Analyser::new(vec![1, 2, 3, 4, 5]);
    analyser.set(1..3);
    assert_eq!(analyser.range(), 1..3);
    assert_eq!(analyser.get(), &[2, 3]);
    analyser.set(5..5);
    assert!(analyser.process_finished());
    analyser.set(4..5);
    assert!(!analyser.process_finished());
}

#[test]
fn analyser_next_and_increase() {
    let mut analyser = Analyser::new(vec![10, 20, 30, 40, 50]);
    analyser.next(1, 2);
    assert_eq!(analyser.range(), 1..3);
    analyser.next(0, 1);
    assert_eq!(analyser.range(), 3..4);
    assert_eq!(analyser.get(), &[40]);
    analyser.increase(1);
    assert_eq!(analyser.range(), 3..5);
    assert_eq!(analyser.get(), &[40, 50]);
    analyser.next(0, 0);
    assert_eq!(analyser.range(), 5..5);
    assert!(analyser.process_finished());
}

#[test]
fn analyser_able_to() {
    let mut analyser = Analyser::new(vec![1, 2, 3]);
    assert!(analyser.able_to(0, 3));
    assert!(analyser.able_to(3, 0));
    assert!(analyser.able_to(1, 2));
    assert!(!analyser.able_to(2, 2));
    assert!(!analyser.able_to(0, 4));
    assert!(!analyser.able_to(usize::MAX, usize::MAX));
    assert!(analyser.able_to_increase(3));
    assert!(!analyser.able_to_increase(4));
    analyser.set(1..2);
    assert!(analyser.able_to_increase(1));
    assert!(!analyser.able_to_increase(2));
}

#[test]
fn analyser_min_len() {
    let mut analyser = Analyser::new(vec![1, 2, 3]);
    assert!(analyser.min_len(1));
    assert_eq!(analyser.range(), 0..1);
    // Long enough already: nothing moves.
    assert!(analyser.min_len(1));
    assert_eq!(analyser.range(), 0..1);
    // Too short: the window grows by the length that is asked for.
    assert!(analyser.min_len(2));
    assert_eq!(analyser.range(), 0..3);
    assert!(!analyser.min_len(4));
    assert_eq!(analyser.range(), 0..3);
    analyser.set(3..3);
    assert!(!analyser.min_len(1));
    assert!(analyser.min_len(0));
}

#[test]
fn analyser_lookup() {
    let mut analyser = Analyser::new(vec!['a', 'b', 'c', 'd']);
    assert_eq!(analyser.lookup(0, 1), Some(&['a'][..]));
    assert_eq!(analyser.lookup(1, 2), Some(&['b', 'c'][..]));
    assert_eq!(analyser.lookup(4, 0), Some(&[][..]));
    assert_eq!(analyser.lookup(4, 1), None);
    analyser.set(0..2);
    assert_eq!(analyser.lookup(0, 2), Some(&['c', 'd'][..]));
    assert_eq!(analyser.lookup(1, 2), None);
    // Looking up moves nothing.
    assert_eq!(analyser.range(), 0..2);
}

#[test]
fn scope_without_data() {
    assert!(matches!(Scope::Block(3).without_data(), Scope::Block(())));
    assert!(matches!(Scope::String("x").without_data(), Scope::String(())));
    assert!(matches!(Scope::Object(1.5).without_data(), Scope::Object(())));
    assert!(matches!(Scope::Module('c').without_data(), Scope::Module(())));
}

#[test]
fn scope_data_and_is() {
    assert_eq!(*Scope::Block(3).data(), 3);
    assert_eq!(*Scope::String(4).data(), 4);
    assert_eq!(*Scope::Object(5).data(), 5);
    assert_eq!(*Scope::Module(6).data(), 6);
    assert!(Scope::Block(3).is(&Scope::Block(())));
    assert!(!Scope::Block(3).is(&Scope::Object(())));
    assert!(Scope::String(3).is(&Scope::String(())));
    assert!(!Scope::Module(3).is(&Scope::String(())));
    assert!(Scope::Module(3).is(&Scope::Module(())));
    assert!(Scope::Object(3).is(&Scope::Object(())));
}

#[test]
fn scope_label() {
    assert_eq!(Scope::Block(()).label(), "Block");
    assert_eq!(Scope::String(()).label(), "String");
    assert_eq!(Scope::Object(()).label(), "Object");
    assert_eq!(Scope::Module(()).label(), "Module");
}

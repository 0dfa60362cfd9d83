use semconv_registry::diag::{combine, tell, DiagnosticResult};

fn can_pass_one() -> DiagnosticResult<String> {
    let mut result = DiagnosticResult::new();
    result.tell("Test".into());
    result
}

fn cant_pass_one() -> DiagnosticResult<String> {
    let mut result = DiagnosticResult::new();
    result.tell("Fail Test".into());
    result.fail()
}

fn can_pass_two() -> DiagnosticResult<String> {
    let mut result = DiagnosticResult::new();
    result.tell("Test2.1".into());
    result.tell("Test2.2".into());
    result
}

#[test]
fn check_macro() {
    let result: DiagnosticResult<String> = can_pass_one().and_then(can_pass_two);
    assert_eq!(
        result,
        DiagnosticResult {
            is_fatal: false,
            messages: vec!("Test".into(), "Test2.1".into(), "Test2.2".into()),
        }
    );
    let result: DiagnosticResult<String> =
        can_pass_one().and_then(|| cant_pass_one().and_then(can_pass_two));
    assert_eq!(
        result,
        DiagnosticResult {
            is_fatal: true,
            messages: vec!("Test".into(), "Fail Test".into()),
        }
    );
}

#[test]
fn combine_keeps_order_and_identity() {
    let a: DiagnosticResult<String> = tell("a".to_string());
    let b: DiagnosticResult<String> = tell("b".to_string());
    let ab = a.combine(b);
    assert!(!ab.is_fatal);
    assert_eq!(ab.messages, vec!["a".to_string(), "b".to_string()]);

    let with_empty = ab.combine(DiagnosticResult::new());
    assert_eq!(
        with_empty,
        DiagnosticResult {
            is_fatal: false,
            messages: vec!["a".to_string(), "b".to_string()],
        }
    );
}

#[test]
fn combine_is_associative() {
    let make = || {
        (
            tell("a".to_string()),
            tell("b".to_string()).fail(),
            tell("c".to_string()),
        )
    };
    let (a, b, c) = make();
    let left = a.combine(b).combine(c);
    let (a, b, c) = make();
    let right = a.combine(b.combine(c));
    assert_eq!(left, right);
    assert!(left.is_fatal);
    assert_eq!(
        left.messages,
        vec!["a".to_string(), "b".to_string(), "c".to_string()]
    );
}

#[test]
fn combine_fatal_is_or() {
    let a: DiagnosticResult<String> = tell("a".to_string());
    let b: DiagnosticResult<String> = tell("b".to_string());
    assert!(!a.combine(b).is_fatal);
    let a: DiagnosticResult<String> = tell("a".to_string()).fail();
    let b: DiagnosticResult<String> = tell("b".to_string());
    assert!(a.combine(b).is_fatal);
    let a: DiagnosticResult<String> = tell("a".to_string());
    let b: DiagnosticResult<String> = tell("b".to_string()).fail();
    assert!(a.combine(b).is_fatal);
}

#[test]
fn and_then_short_circuits_on_fatal() {
    let mut evaluated = false;
    let r = tell("m".to_string()).fail().and_then(|| {
        evaluated = true;
        tell("never".to_string())
    });
    assert!(!evaluated);
    assert!(r.is_fatal);
    assert!(r.is_err());
    assert!(!r.is_ok());
    assert_eq!(r.messages, vec!["m".to_string()]);
}

#[test]
fn and_then_combines_on_success() {
    let r = tell("a".to_string()).and_then(|| tell("b".to_string()).fail());
    assert!(r.is_fatal);
    assert_eq!(r.messages, vec!["a".to_string(), "b".to_string()]);
}

#[test]
fn free_combine_concatenates() {
    let r = combine(vec![1u32, 2], vec![3u32]);
    assert_eq!(r, vec![1u32, 2, 3]);
}

#[test]
fn clear_and_merge() {
    let mut r: DiagnosticResult<String> = tell("x".to_string()).fail();
    r.clear();
    assert!(!r.is_fatal);
    assert!(!r.has_messages());
    r.tell("y".to_string());
    let other = tell("z".to_string());
    r.merge(other);
    assert!(!r.is_fatal);
    assert!(r.has_messages());
    assert_eq!(r.messages(), vec!["y".to_string(), "z".to_string()]);
}

#[test]
fn merge_carries_the_fatal_flag() {
    let mut r: DiagnosticResult<String> = tell("y".to_string());
    r.merge(tell("z".to_string()).fail());
    assert!(r.is_fatal);
    assert_eq!(r.messages, vec!["y".to_string(), "z".to_string()]);

    let mut r: DiagnosticResult<String> = tell("y".to_string()).fail();
    r.merge(tell("z".to_string()));
    assert!(r.is_fatal);
}

use inc::plugin::{
    format_service_list, is_builtin, list_available, plugin_file_name, resolve, Resolution,
    SearchDir,
};
use inc::checkout::checkout_resolution_result;
use inc::executor::RawOutcome;

fn dir(path: &str, entries: &[&str]) -> SearchDir {
    SearchDir {
        path: path.to_string(),
        entries: entries.iter().map(|e| e.to_string()).collect(),
    }
}

#[test]
fn checkout_list_internal() {
    let listing = list_available("inc", "checkout-service", &vec![]);
    assert_eq!(listing.len(), 1);
    assert_eq!(listing[0].name, "github");
    assert!(listing[0].builtin);
    assert_eq!(format_service_list(&listing), "Services:\n - github\t[default]");
}

#[test]
fn checkout_list_with_external() {
    let search = vec![dir("/tmp/bin", &["inc-checkout-service-foobar", "unrelated"])];
    let listing = list_available("inc", "checkout-service", &search);
    assert_eq!(listing.len(), 2);
    assert_eq!(listing[0].name, "foobar");
    assert!(!listing[0].builtin);
    assert_eq!(listing[1].name, "github");
    assert!(listing[1].builtin);
    assert_eq!(format_service_list(&listing), "Services:\n - foobar\n - github\t[default]");
}

#[test]
fn listing_never_repeats_a_name() {
    let search = vec![
        dir("/a", &["inc-checkout-service-github", "inc-checkout-service-zzz"]),
        dir("/b", &["inc-checkout-service-zzz.exe"]),
    ];
    let listing = list_available("inc", "checkout-service", &search);
    assert_eq!(listing.len(), 2);
    assert_eq!(listing[0].name, "github");
    assert!(listing[0].builtin);
    assert_eq!(listing[1].name, "zzz");
    assert!(!listing[1].builtin);
}

#[test]
fn resolve_builtin_service() {
    let r = resolve("inc", "checkout-service", "github", &vec![]);
    assert!(matches!(r, Resolution::Builtin(ref n) if n == "github"));
}

#[test]
fn resolve_external_service() {
    let search = vec![
        dir("/empty", &[]),
        dir("/tmp/bin", &["inc-checkout-service-foobar"]),
    ];
    let r = resolve("inc", "checkout-service", "foobar", &search);
    match r {
        Resolution::External(p) => {
            assert_eq!(p.category, "checkout-service");
            assert_eq!(p.name, "foobar");
            assert_eq!(p.executable_path, "/tmp/bin/inc-checkout-service-foobar");
        }
        _ => panic!("expected an external resolution"),
    }
}

#[test]
fn resolve_takes_first_match_in_path_order() {
    let search = vec![
        dir("/first", &["inc-checkout-service-foobar"]),
        dir("/second", &["inc-checkout-service-foobar"]),
    ];
    let r = resolve("inc", "checkout-service", "foobar", &search);
    match r {
        Resolution::External(p) => {
            assert_eq!(p.executable_path, "/first/inc-checkout-service-foobar");
        }
        _ => panic!("expected an external resolution"),
    }
}

#[test]
fn resolve_accepts_exe_suffix() {
    let search = vec![dir("/w", &["inc-checkout-service-foobar.exe"])];
    let r = resolve("inc", "checkout-service", "foobar", &search);
    assert!(matches!(r, Resolution::External(_)));
}

#[test]
fn unresolvable_service() {
    let r = resolve("inc", "checkout-service", "nothere", &vec![dir("/x", &["other"])]);
    assert!(matches!(r, Resolution::NotFound));
    let err = inc::checkout::plugin_not_found_error("nothere");
    assert_eq!(err.code, 2);
    assert_eq!(err.message, "Unable to resolve checkout service: nothere");
}

#[test]
fn checkout_from_service() {
    let search = vec![dir("/tmp/bin", &["inc-checkout-service-foobar"])];
    let r = resolve("inc", "checkout-service", "foobar", &search);
    assert!(matches!(r, Resolution::External(_)));
    let url = checkout_resolution_result(RawOutcome::Exited {
        stdout: "git@github.com:ethankhall/inc.git\n".to_string(),
        stderr: String::new(),
        code: Some(0),
    });
    assert_eq!(url.unwrap(), "git@github.com:ethankhall/inc.git");
}

#[test]
fn failing_plugin_is_resolution_failure() {
    let r = checkout_resolution_result(RawOutcome::Exited {
        stdout: "partial".to_string(),
        stderr: "boom".to_string(),
        code: Some(3),
    });
    match r {
        Err(e) => {
            assert_eq!(e.code, 2);
            assert!(e.message.contains("partial"));
            assert!(e.message.contains("boom"));
        }
        Ok(_) => panic!("a non-zero plugin exit is never success"),
    }
}

#[test]
fn plugin_file_name_follows_convention() {
    assert_eq!(
        plugin_file_name("inc", "checkout-service", "foobar"),
        "inc-checkout-service-foobar"
    );
    assert!(is_builtin("checkout-service", "github"));
    assert!(!is_builtin("checkout-service", "foobar"));
    assert!(!is_builtin("other", "github"));
}

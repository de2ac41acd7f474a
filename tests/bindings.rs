use bindgen_cuda::bindings::{changed, identifier, push_binding_line};
use bindgen_cuda::{Bindings, KernelUnit};

fn unit(source: &str, stem: &str) -> KernelUnit {
    KernelUnit { source: source.to_string(), stem: stem.to_string() }
}

#[test]
fn identifiers_are_upper_case_with_underscores() {
    assert_eq!(identifier("attention"), "ATTENTION");
    assert_eq!(identifier("flash.attention"), "FLASH_ATTENTION");
}

#[test]
fn binding_line_names_the_artifact() {
    let mut out = String::new();
    push_binding_line(&mut out, "flash.attention");
    assert_eq!(
        out,
        "pub const FLASH_ATTENTION: &str = include_str!(concat!(env!(\"OUT_DIR\"), \"/flash.attention.ptx\"));\n"
    );
}

#[test]
fn render_writes_one_line_per_unit_in_order() {
    let b = Bindings { write: true, units: vec![unit("src/b.cu", "b"), unit("src/a.cu", "a")] };
    let text = b.render();
    let lines: Vec<&str> = text.lines().collect();
    assert_eq!(lines.len(), 2);
    assert!(lines[0].starts_with("pub const B: &str"));
    assert!(lines[1].starts_with("pub const A: &str"));
    assert!(text.ends_with('\n'));
}

#[test]
fn unchanged_bindings_leave_the_destination() {
    let b = Bindings { write: false, units: vec![unit("src/a.cu", "a")] };
    let mut dest = String::from("existing contents\n");
    b.write(&mut dest);
    assert_eq!(dest, "existing contents\n");
    b.write(&mut dest);
    assert_eq!(dest, "existing contents\n");
}

#[test]
fn changed_bindings_are_identical_when_written_twice() {
    let b = Bindings { write: true, units: vec![unit("src/a.cu", "a"), unit("src/x.y.cu", "x.y")] };
    let mut dest = String::from("old");
    b.write(&mut dest);
    let first = dest.clone();
    b.write(&mut dest);
    assert_eq!(dest, first);
    assert_eq!(first, b.render());
}

#[test]
fn changed_signal_counts_compiled_and_removed_units() {
    assert!(changed(3, 3, 0));
    assert!(!changed(0, 3, 3));
    assert!(changed(0, 2, 3));
    assert!(!changed(0, 3, 2));
}

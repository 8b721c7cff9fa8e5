use binaris::pseudocode::{from_assembly_preview, translate};

#[test]
fn translates_mov_xor_ret() {
    let listing = "mov rax, rbx\nxor eax, eax\nret";
    let pc = from_assembly_preview(listing, "demo");
    assert!(pc.contains("rax = rbx"));
    assert!(pc.contains("eax = 0"));
    assert!(pc.contains("return"));
}

#[test]
fn entry_pseudocode_contains_calls() {
    let listing = "call 0x401000\nmov eax, 1\nret";
    let pc = from_assembly_preview(listing, "entry");
    assert!(pc.contains("call("));
    assert!(pc.contains("return"));
}

#[test]
fn pseudocode_exact_output() {
    let listing = "0000000000401000  push rbp\n; comment\n\n48 89 e5\nadd rax, 8\n???";
    let pc = from_assembly_preview(listing, "f");
    assert_eq!(
        pc,
        "void f() {\n  stack.push(rbp);\n  // bytes: 48 89 e5\n  rax += 8;\n  // ???\n}"
    );
}

#[test]
fn pseudocode_keeps_first_eighty_lines() {
    let listing = "nop\n".repeat(100);
    let pc = from_assembly_preview(&listing, "n");
    assert_eq!(pc.matches("/* nop */").count(), 80);
}

#[test]
fn translate_table() {
    assert_eq!(translate("jne", "0x10"), "if (!ZF) goto 0x10;");
    assert_eq!(translate("xor", "eax, ebx"), "eax ^= ebx;");
    assert_eq!(translate("mov", "rax"), "rax = src;");
    assert_eq!(translate("pop", "rbx"), "rbx = stack.pop();");
    assert_eq!(translate("frob", "x"), "asm(\"frob x\");");
}

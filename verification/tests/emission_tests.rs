use nemet::codegen::Codegen;

#[test]
fn new_buffer_is_empty() {
    let cg = Codegen::new();
    assert!(cg.instruct_buf.is_empty());
    assert!(cg.data_buf.is_empty());
    assert!(cg.bss_buf.is_empty());
}

#[test]
fn get_id_is_next_instruction_index() {
    let mut cg = Codegen::new();
    assert_eq!(cg.get_id(), 0);
    cg.mov("rax", "rbx");
    assert_eq!(cg.get_id(), 1);
}

#[test]
fn two_operand_lines_are_indented_and_exact() {
    let mut cg = Codegen::new();
    cg.lea("rax", "[rbp-8]");
    cg.mov("rax", "rbx");
    cg.cmove("rax", "rbx");
    cg.cmovne("rax", "rbx");
    cg.cmovg("rax", "rbx");
    cg.cmovl("rax", "rbx");
    cg.cmovge("rax", "rbx");
    cg.cmovle("rax", "rbx");
    cg.add("rax", "1");
    cg.sub("rsp", "32");
    cg.imul("rax", "rcx");
    cg.or("rax", "rcx");
    cg.and("rax", "rcx");
    cg.sal("rax", "cl");
    cg.sar("rax", "cl");
    cg.cmp("rax", "0");
    cg.test("rax", "rax");
    assert_eq!(
        cg.instruct_buf,
        vec![
            "    lea rax, [rbp-8]",
            "    mov rax, rbx",
            "    cmove rax, rbx",
            "    cmovne rax, rbx",
            "    cmovg rax, rbx",
            "    cmovl rax, rbx",
            "    cmovge rax, rbx",
            "    cmovle rax, rbx",
            "    add rax, 1",
            "    sub rsp, 32",
            "    imul rax, rcx",
            "    or rax, rcx",
            "    and rax, rcx",
            "    sal rax, cl",
            "    sar rax, cl",
            "    cmp rax, 0",
            "    test rax, rax",
        ]
    );
}

#[test]
fn one_and_zero_operand_lines_are_exact() {
    let mut cg = Codegen::new();
    cg.push("rbp");
    cg.pop("rbp");
    cg.idiv("rbx");
    cg.neg("rax");
    cg.not("rax");
    cg.call("main");
    cg.tag("main");
    cg.jmp("done");
    cg.jz("done");
    cg.jnz("loop_top");
    cg.cqo();
    cg.syscall();
    cg.leave();
    cg.ret();
    assert_eq!(
        cg.instruct_buf,
        vec![
            "    push rbp",
            "    pop rbp",
            "    idiv rbx",
            "    neg rax",
            "    not rax",
            "    call main",
            "main:",
            "    jmp done",
            "    jz done",
            "    jnz loop_top",
            "    cqo",
            "    syscall",
            "    leave",
            "    ret",
        ]
    );
}

#[test]
fn data_segment_entries_pair_label_and_length() {
    let mut cg = Codegen::new();
    let id0 = cg.add_data_seg("\"hello\", 10", 6);
    assert_eq!(id0, 0);
    assert_eq!(cg.data_buf, vec!["data0 db \"hello\", 10", "len0 equ $ - data0"]);
    let id1 = cg.add_data_seg("42", 8);
    assert_eq!(id1, 2);
    assert_eq!(cg.data_buf.len(), 4);
    assert_eq!(cg.data_buf[2], "data2 db 42");
    assert_eq!(cg.data_buf[3], "len2 equ $ - data2");
}

#[test]
fn bss_segment_reserves_bytes_under_generated_label() {
    let mut cg = Codegen::new();
    let t0 = cg.add_bss_seg(64);
    assert_eq!(t0, "arr0");
    let t1 = cg.add_bss_seg(8);
    assert_eq!(t1, "arr1");
    assert_eq!(cg.bss_buf, vec!["arr0: resb 64", "arr1: resb 8"]);
}

#[test]
fn place_holder_reserves_an_empty_slot() {
    let mut cg = Codegen::new();
    cg.mov("rax", "rbx");
    let slot = cg.place_holder();
    assert_eq!(slot, 1);
    assert_eq!(cg.instruct_buf[1], "");
}

#[test]
fn fill_slot_replaces_reserved_content_verbatim() {
    let mut cg = Codegen::new();
    let slot = cg.place_holder();
    cg.mov("rax", "rbx");
    let r = cg.insert_into_raw(slot, "    jmp end".to_string());
    assert!(r.is_ok());
    assert_eq!(cg.instruct_buf, vec!["    jmp end", "    mov rax, rbx"]);
}

#[test]
fn fill_slot_at_or_past_last_index_is_out_of_bounds() {
    let mut cg = Codegen::new();
    let slot = cg.place_holder();
    // the reserved slot is the last valid index: filling it is refused
    let r = cg.insert_into_raw(slot, "    nop".to_string());
    assert_eq!(r, Err("index out of bounds!".to_string()));
    assert_eq!(cg.instruct_buf, vec![""]);
    let r2 = cg.insert_into_raw(7, "    nop".to_string());
    assert!(r2.is_err());
}

#[test]
fn fill_slot_on_empty_buffer_is_out_of_bounds() {
    let mut cg = Codegen::new();
    let r = cg.insert_into_raw(0, "    nop".to_string());
    assert_eq!(r, Err("index out of bounds!".to_string()));
    assert!(cg.instruct_buf.is_empty());
}

#[test]
fn insert_raw_appends_verbatim() {
    let mut cg = Codegen::new();
    cg.insert_raw("whatever text".to_string());
    assert_eq!(cg.instruct_buf, vec!["whatever text"]);
}

#[test]
fn assembly_text_concatenates_segments_under_headers() {
    let mut cg = Codegen::new();
    cg.tag("_start");
    cg.mov("rax", "60");
    cg.add_data_seg("7", 8);
    cg.add_bss_seg(16);
    let text = cg.assembly_text();
    assert_eq!(
        text,
        "global _start\n\
         section .text\n\
         _start:\n    mov rax, 60\n\
         section .data\ndata0 db 7\nlen0 equ $ - data0\n\
         section .bss\narr0: resb 16\n"
    );
}

#[test]
fn assembly_text_of_empty_buffer_is_only_headers() {
    let cg = Codegen::new();
    assert_eq!(cg.assembly_text(), "global _start\nsection .text\nsection .data\nsection .bss\n");
}

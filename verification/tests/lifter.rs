//! Lifting single instructions and checking the printed region with filecheck directives.

use aarch64_air_lifter::arm64::AArch64Lifter;
use aarch64_air_lifter::Lifter;
use filecheck::{CheckerBuilder, Value, VariableMap};
use std::borrow::Cow;
use std::collections::HashMap;

/// Variables the directives may use.
struct Variables(HashMap<String, Value<'static>>);

impl VariableMap for Variables {
    fn lookup(&self, varname: &str) -> Option<Value> {
        self.0.get(varname).cloned()
    }
}

/// Lifts `bytes`, prints the region and checks it against `directives`.
fn check_instruction(bytes: &[u8], directives: &str) -> bool {
    let lifter = AArch64Lifter;
    let blob = lifter.lift(bytes, &[]).unwrap();
    let result = blob.display();
    println!("{}", result);

    let mut variables = HashMap::new();
    variables.insert(
        "VAR_NAME".to_string(),
        Value::Regex(Cow::Borrowed("v[0-9]+")),
    );
    variables.insert(
        "LABEL".to_string(),
        Value::Regex(Cow::Borrowed("[a-zA-Z0-9_]+")),
    );
    let mut checker_builder = CheckerBuilder::new();
    let checker = checker_builder
        .text(directives)
        .expect("Failed to create checker builder")
        .finish();
    checker
        .check(&result, &Variables(variables))
        .expect("Filecheck failed")
}

#[test]
fn test_adc_1() {
    let bytes = [
        0x21, 0x00, 0x00, 0x9A, // adc x1, x1, x0
    ];
    let directives = r#"
        #0 check: // entry block
        #1 nextln: v37 = i64.read_reg "x1"
        #2 nextln: v38 = i64.read_reg "x0"
        #3 nextln: v39 = i1.read_reg "c"
        #4 nextln: v40 = i64.add v37, v39
        #5 nextln: v41 = i64.add v40, v38
        #6 nextln: i64.write_reg v41, "x1"
    "#;

    assert!(check_instruction(&bytes, directives));
}

#[test]
fn test_adc_2() {
    let bytes = [
        0x21, 0x00, 0x00, 0x1A, // adc w1, w1, w0
    ];
    let directives = r#"
        check: // entry block
        nextln: v37 = i32.read_reg "x1"
        nextln: v38 = i32.read_reg "x0"
        nextln: v39 = i1.read_reg "c"
        nextln: v40 = i32.add v37, v39
        nextln: v41 = i32.add v40, v38
        nextln: i32.write_reg v41, "x1"
    "#;

    assert!(check_instruction(&bytes, directives));
}

#[test]
fn adc_simple_test() {
    let bytes = [
        0x21, 0x00, 0x00, 0x9A, // adc x1, x1, x0
        0x21, 0x00, 0x00, 0x1A, // adc w1, w1, w0
    ];

    let lifter = AArch64Lifter;
    let blob = lifter.lift(&bytes, &[]).unwrap();

    println!("{}", blob.display());
}

#[test]
fn test_adcs_1() {
    let bytes = [
        0x21, 0x00, 0x00, 0xBA, // adcs x1, x1, x0
    ];
    let directives = r#"
        check: // entry block
        nextln:  v37 = i64.read_reg "x1"
        nextln:  v38 = i64.read_reg "x0"
        nextln:  v39 = i1.read_reg "c"
        nextln:  v40 = i64.add v37, v39
        nextln:  v41 = i64.add v40, v38
        nextln:  i64.write_reg v41, "x1"
        nextln:  v42 = i64.add v37, v38
        nextln:  v43 = i64.add v42, v39
        nextln:  v44 = i64.icmp.eq v43, 0x0
        nextln:  i1.write_reg v44, "z"
        nextln:  v45 = i64.icmp.slt v43, 0x0
        nextln:  i1.write_reg v45, "n"
        nextln:  v46 = i64.icmp.ugt v37, v43
        nextln:  v47 = i64.icmp.ugt v38, v43
        nextln:  v48 = i1.or v46, v47
        nextln:  i1.write_reg v48, "c"
        nextln:  v49 = i64.icmp.slt v37, 0x0
        nextln:  v50 = i64.icmp.slt v38, 0x0
        nextln:  v51 = i1.icmp.eq v49, v50
        nextln:  v52 = i1.icmp.ne v49, v45
        nextln:  v53 = i1.and v51, v52
        nextln:  i1.write_reg v53, "v"
    "#;

    assert!(check_instruction(&bytes, directives));
}

#[test]
fn test_adcs_2() {
    let bytes = [
        0x21, 0x00, 0x00, 0x3A, // adcs w1, w1, w0
    ];
    let directives = r#"
        check: // entry block
        nextln: v37 = i32.read_reg "x1"
        nextln: v38 = i32.read_reg "x0"
        nextln: v39 = i1.read_reg "c"
        nextln: v40 = i32.add v37, v39
        nextln: v41 = i32.add v40, v38
        nextln: i32.write_reg v41, "x1"
        nextln: v42 = i32.add v37, v38
        nextln: v43 = i32.add v42, v39
        nextln: v44 = i32.icmp.eq v43, 0x0
        nextln: i1.write_reg v44, "z"
        nextln: v45 = i32.icmp.slt v43, 0x0
        nextln: i1.write_reg v45, "n"
        nextln: v46 = i32.icmp.ugt v37, v43
        nextln: v47 = i32.icmp.ugt v38, v43
        nextln: v48 = i1.or v46, v47
        nextln: i1.write_reg v48, "c"
        nextln: v49 = i32.icmp.slt v37, 0x0
        nextln: v50 = i32.icmp.slt v38, 0x0
        nextln: v51 = i1.icmp.eq v49, v50
        nextln: v52 = i1.icmp.ne v49, v45
        nextln: v53 = i1.and v51, v52
        nextln: i1.write_reg v53, "v"
    "#;

    assert!(check_instruction(&bytes, directives));
}

#[test]
fn add_simple_test_add_1() {
    let bytes = [
        0x21, 0x00, 0x00, 0x8B, // add x1, x1, s0
    ];
    let directives = r#"
        #0 check: // entry block
        #1 nextln: v37 = i64.read_reg "x1"
        #2 nextln: v38 = i64.read_reg "x0"
        #3 nextln: v39 = i64.add v37, v38
        #4 nextln: i64.write_reg v39, "x1"
    "#;

    check_instruction(&bytes, directives);
}

#[test]
fn add_simple_test_add_2() {
    let bytes = [
        0x21, 0x00, 0x00, 0x0B, // add w1, w1, w0
    ];
    let directives = r#"
        #0 check: // entry block
        #1 nextln: v37 = i32.read_reg "x1"
        #2 nextln: v38 = i32.read_reg "x0"
        #3 nextln: v39 = i32.add v37, v38
        #4 nextln: i32.write_reg v39, "x1"
  "#;

    check_instruction(&bytes, directives);
}

#[test]
fn test_add_3() {
    let bytes = [
        0x02, 0xc0, 0x21, 0x0B, // add w2, w0, w1, SXTW
    ];
    let directives = r#"
        #0 check: // entry block
        #1 nextln: v37 = i32.read_reg "x0"
        #2 nextln: v38 = i32.read_reg "x1"
        #3 check: $VAR_NAME = i32.add $VAR_NAME, $VAR_NAME
        #4 nextln: i32.write_reg $VAR_NAME, "x2"
    "#;

    check_instruction(&bytes, directives);
}

#[test]
fn adds_test_add_1() {
    let bytes = [
        0x21, 0x00, 0x00, 0xAB, // add x1, x1, x0
    ];
    let directives = r#"
        check: // entry block
        nextln: v37 = i64.read_reg "x1"
        nextln: v38 = i64.read_reg "x0"
        nextln: v39 = i64.add v37, v38
        nextln: i64.write_reg v39, "x1"
        nextln: v40 = i64.add v37, v38
        nextln: v41 = i64.add v40, 0x0
        nextln: v42 = i64.icmp.eq v41, 0x0
        nextln: i1.write_reg v42, "z"
        nextln: v43 = i64.icmp.slt v41, 0x0
        nextln: i1.write_reg v43, "n"
        nextln: v44 = i64.icmp.ugt v37, v41
        nextln: v45 = i64.icmp.ugt v38, v41
        nextln: v46 = i1.or v44, v45
        nextln: i1.write_reg v46, "c"
        nextln: v47 = i64.icmp.slt v37, 0x0
        nextln: v48 = i64.icmp.slt v38, 0x0
        nextln: v49 = i1.icmp.eq v47, v48
        nextln: v50 = i1.icmp.ne v47, v43
        nextln: v51 = i1.and v49, v50
        nextln: i1.write_reg v51, "v"
    "#;

    assert!(check_instruction(&bytes, directives));
}

#[test]
fn adds_test_add_2() {
    let bytes = [
        0x21, 0x00, 0x00, 0x2B, // add w1, w1, w0
    ];
    let directives = r#"
        check: // entry block
        nextln: v37 = i32.read_reg "x1"
        nextln: v38 = i32.read_reg "x0"
        nextln: v39 = i32.add v37, v38
        nextln: i32.write_reg v39, "x1"
        nextln: v40 = i32.add v37, v38
        nextln: v41 = i32.add v40, 0x0
        nextln: v42 = i32.icmp.eq v41, 0x0
        nextln: i1.write_reg v42, "z"
        nextln: v43 = i32.icmp.slt v41, 0x0
        nextln: i1.write_reg v43, "n"
        nextln: v44 = i32.icmp.ugt v37, v41
        nextln: v45 = i32.icmp.ugt v38, v41
        nextln: v46 = i1.or v44, v45
        nextln: i1.write_reg v46, "c"
        nextln: v47 = i32.icmp.slt v37, 0x0
        nextln: v48 = i32.icmp.slt v38, 0x0
        nextln: v49 = i1.icmp.eq v47, v48
        nextln: v50 = i1.icmp.ne v47, v43
        nextln: v51 = i1.and v49, v50
        nextln: i1.write_reg v51, "v"
  "#;

    assert!(check_instruction(&bytes, directives));
}

#[test]
fn adr_test_addr_1() {
    let bytes = [
        0x00, 0x00, 0x00, 0x10, // adr x0, pc
    ];
    let directives = r#"
        check: // entry block
        nextln: v37 = i64.read_reg "pc"
        nextln: v38 = i64.add v37, 0x0
        nextln: i64.write_reg v38, "x0"
    "#;

    check_instruction(&bytes, directives);
}

#[test]
fn adr_test_addr_2() {
    let bytes = [
        0x21, 0x00, 0x00, 0x10, // adr x1, pc+1
    ];
    let directives = r#"
        check: // entry block
        nextln: v37 = i64.read_reg "pc"
        nextln: v38 = i64.add v37, 0x4
        nextln: i64.write_reg v38, "x1"
    "#;

    check_instruction(&bytes, directives);
}

#[test]
fn adr_test_addr_3() {
    let bytes = [
        0xC0, 0xFF, 0xFF, 0x10, // adr x0, pc-2
    ];
    let directives = r#"
        check: // entry block
        nextln: v37 = i64.read_reg "pc"
        nextln: v38 = i64.add v37, 0xfffffffffffffff8
        nextln: i64.write_reg v38, "x0"
    "#;

    check_instruction(&bytes, directives);
}

#[test]
fn adr_simple_test_addr_1() {
    let bytes = [
        0x00, 0x00, 0x00, 0x10, // adr x0, pc
    ];
    let directives = r#"
        #0 check: // entry block
        #1 nextln: v37 = i64.read_reg "pc"
        #2 nextln: v38 = i64.add v37, 0x0
        #3 nextln: i64.write_reg v38, "x0"
    "#;

    assert!(check_instruction(&bytes, directives));
}

#[test]
fn adr_simple_test_addr_2() {
    let bytes = [
        0x21, 0x00, 0x00, 0x10, // adr x1, pc+1
    ];
    let directives = r#"
        #0 check: // entry block
        #1 nextln: v37 = i64.read_reg "pc"
        #2 nextln: v38 = i64.add v37, 0x4
        #3 nextln: i64.write_reg v38, "x1"
    "#;

    assert!(check_instruction(&bytes, directives));
}

#[test]
fn adr_simple_test_addr_3() {
    let bytes = [
        0xC0, 0xFF, 0xFF, 0x10, // adr x0, pc-2
    ];
    let directives = r#"
        #0 check: // entry block
        #1 nextln: v37 = i64.read_reg "pc"
        #2 nextln: v38 = i64.add v37, 0xfffffffffffffff8
        #3 nextln: i64.write_reg v38, "x0"
    "#;

    assert!(check_instruction(&bytes, directives));
}

#[test]
fn adrp_test_adrp_1() {
    let bytes = [
        0x00, 0x00, 0x00, 0x90, // adrp x0, pc
    ];
    let directives = r#"
        check: // entry block
        nextln: v37 = i64.not 0xfff
        nextln: v38 = i64.read_reg "pc"
        nextln: v39 = i64.and v38, v37
        nextln: v40 = i64.add v39, 0x0
        nextln: i64.write_reg v40, "x0"
    "#;

    check_instruction(&bytes, directives);
}

#[test]
fn adrp_test_adrp_2() {
    let bytes = [
        0x00, 0x00, 0x00, 0xB0, // adrp x0, pc+4096
    ];
    let directives = r#"
        check: // entry block
        nextln: v37 = i64.not 0xfff
        nextln: v38 = i64.read_reg "pc"
        nextln: v39 = i64.and v38, v37
        nextln: v40 = i64.add v39, 0x1000
        nextln: i64.write_reg v40, "x0"
    "#;

    check_instruction(&bytes, directives);
}

#[test]
fn adrp_simple_test_adrp_1() {
    let bytes = [
        0x00, 0x00, 0x00, 0x90, // adrp x0, pc
    ];
    let directives = r#"
        #0 check: // entry block
        #1 nextln: v37 = i64.not 0xfff
        #2 nextln: v38 = i64.read_reg "pc"
        #3 nextln: v39 = i64.and v38, v37
        #4 nextln: v40 = i64.add v39, 0x0
        #5 nextln: i64.write_reg v40, "x0"
    "#;

    assert!(check_instruction(&bytes, directives));
}

#[test]
fn adrp_simple_test_adrp_2() {
    let bytes = [
        0x00, 0x00, 0x00, 0xB0, // adrp x0, pc+4096
    ];
    let directives = r#"
        #0 check: // entry block
        #1 nextln: v37 = i64.not 0xfff
        #2 nextln: v38 = i64.read_reg "pc"
        #3 nextln: v39 = i64.and v38, v37
        #4 nextln: v40 = i64.add v39, 0x1000
        #5 nextln: i64.write_reg v40, "x0"
    "#;

    assert!(check_instruction(&bytes, directives));
}

#[test]
fn and_simple_test() {
    let bytes = [
        0x20, 0x04, 0x00, 0x12, // and w0, w1, #3
        0x41, 0x00, 0x40, 0x92, // and x1, x2, #1
        0x20, 0x10, 0x02, 0x8A, // and x0, x1, x2, LSL#4
    ];

    let lifter = AArch64Lifter;
    let blob = lifter.lift(&bytes, &[]).unwrap();

    println!("{}", blob.display());
}

#[test]
fn test_ands_1() {
    let bytes = [
        0x21, 0x00, 0x02, 0xEA, // ands x1, x1, x2
    ];
    let directives = r#"
        check: // entry block
        nextln: v37 = i64.read_reg "x1"
        nextln: v38 = i64.read_reg "x2"
        nextln: v39 = i64.and v37, v38
        nextln: i64.write_reg v39, "x1"
        nextln: i1.write_reg 0x0, "c"
        nextln: i1.write_reg 0x0, "v"
        nextln: v40 = i64.icmp.eq v39, 0x0
        nextln: i1.write_reg v40, "z"
        nextln: v41 = i64.icmp.slt v39, 0x0
        nextln: i1.write_reg v41, "n"
    "#;

    assert!(check_instruction(&bytes, directives));
}

#[test]
fn test_asrv_1() {
    let bytes = [
        0x20, 0x28, 0xC2, 0x9A, // asr x0, x1, x2
    ];
    let directives = r#"
        #0 check: // entry block    
        #1 nextln: v37 = i64.read_reg "x1"
        #2 nextln: v38 = i64.read_reg "x2"
        #3 nextln: v39 = i64.and v38, 0x3f
        #4 nextln: v40 = i64.ashr v37, v39
        #5 nextln: i64.write_reg v40, "x0"
    "#;

    assert!(check_instruction(&bytes, directives));
}

#[test]
fn test_asrv_2() {
    let bytes = [
        0x20, 0x28, 0xC2, 0x1A, // asr w0, w1, w2
    ];
    let directives = r#"
        #0 check: // entry block    
        #1 nextln: v37 = i32.read_reg "x1"
        #2 nextln: v38 = i32.read_reg "x2"
        #3 nextln: v39 = i32.and v38, 0x1f
        #4 nextln: v40 = i32.ashr v37, v39
        #5 nextln: i32.write_reg v40, "x0"
    "#;

    assert!(check_instruction(&bytes, directives));
}

#[test]
fn test_b_1() {
    let bytes = [
        0x00, 0x00, 0x00, 0x14, // b, pc
    ];
    let directives = r#"
        check: // entry block    
        check: block_0: // preds: block_0
        nextln: jump block_0
        check: block_4: // no preds!
    "#;

    assert!(check_instruction(&bytes, directives));
}

#[test]
fn test_bcc_1() {
    let bytes = [
        0x00, 0x00, 0x00, 0x54, // b.eq pc
    ];
    let directives = r#"
        check: // entry block    
        check: v37 = i1.read_reg "z"
        nextln: v38 = i1.icmp.eq v37, 0x1
        nextln: jumpif v38, block_0, block_4
    "#;

    assert!(check_instruction(&bytes, directives));
}

#[test]
fn test_bcc_2() {
    let bytes = [
        0x07, 0x00, 0x00, 0x54, // b.vc pc
    ];
    let directives = r#"
    check: // entry block
    check: v37 = i1.read_reg "v"
    nextln: v38 = i1.icmp.ne v37, 0x1
    nextln: jumpif v38, block_0, block_4
    "#;

    assert!(check_instruction(&bytes, directives));
}

#[test]
fn test_bfm_1() {
    let bytes = [
        0x41, 0x78, 0x0C, 0x33, // bfm w1, w2, #12, #30 <=> bfxil w1, w2, #12, #19
    ];
    let directives = r#"
        # check: // entry block
        # nextln:   v37 = i32.read_reg "x2"
        # nextln:   v38 = i64.icmp.uge 0x1e, 0xc
        # nextln:   jumpif v38, bfm_positive_condition, bfm_negative_condition
        # check: bfm_positive_condition:
        # nextln:   v39 = i32.add 0x1, 0x1e
        # nextln:   v40 = i32.sub v39, 0xc
        # nextln:   v41 = i32.lshl 0x1, v40
        # nextln:   v42 = i32.sub v41, 0x1
        # nextln:   v43 = i32.lshl v42, 0xc
        # nextln:   v44 = i32.and v37, v43
        # nextln:   v45 = i32.lshr v44, 0xc
        # nextln:   v46 = i32.lshl 0x1, v40
        # nextln:   v47 = i32.sub v46, 0x1
        # nextln:   v48 = i32.not v47
        # nextln:   v49 = i32.and v37, v48
        # nextln:   v50 = i32.or v45, v49
        # nextln:   i32.write_reg v50, "x1"
        # nextln:   jump block_4
        # check: bfm_negative_condition:
        # nextln:   v51 = i32.add 0x1, 0x1e
        # nextln:   v52 = i32.lshl 0x1, v51
        # nextln:   v53 = i32.sub v52, 0x1
        # nextln:   v54 = i32.and v37, v53
        # nextln:   v55 = i32.sub 0x20, 0xc
        # nextln:   v56 = i32.lshl v54, v55
        # nextln:   v57 = i32.lshl 0x1, v51
        # nextln:   v58 = i32.sub v57, 0x1
        # nextln:   v59 = i32.lshl v58, v55
        # nextln:   v60 = i32.not v59
        # nextln:   v61 = i32.and v37, v60
        # nextln:   v62 = i32.or v56, v61
        # nextln:   i32.write_reg v62, "x1"
        # nextln:   jump block_4
    "#;

    assert!(check_instruction(&bytes, directives));
}

#[test]
fn test_bfm_2() {
    let bytes = [
        0x41, 0x04, 0x41, 0xB3, // bfm x1, x2, #1, #1 <=> bfxil x1, x2, #1, #1
    ];
    let directives = r#"
        #0 check: // entry block
        # nextln:   v37 = i64.read_reg "x2"
        # nextln:   v38 = i64.icmp.uge 0x1, 0x1
        # nextln:   jumpif v38, bfm_positive_condition, bfm_negative_condition
        # check: bfm_positive_condition:
        # nextln:   v39 = i64.add 0x1, 0x1
        # nextln:   v40 = i64.sub v39, 0x1
        # nextln:   v41 = i64.lshl 0x1, v40
        # nextln:   v42 = i64.sub v41, 0x1
        # nextln:   v43 = i64.lshl v42, 0x1
        # nextln:   v44 = i64.and v37, v43
        # nextln:   v45 = i64.lshr v44, 0x1
        # nextln:   v46 = i64.lshl 0x1, v40
        # nextln:   v47 = i64.sub v46, 0x1
        # nextln:   v48 = i64.not v47
        # nextln:   v49 = i64.and v37, v48
        # nextln:   v50 = i64.or v45, v49
        # nextln:   i64.write_reg v50, "x1"
        # nextln:   jump block_4
        # check: bfm_negative_condition: // preds: entry
        # nextln:   v51 = i64.add 0x1, 0x1
        # nextln:   v52 = i64.lshl 0x1, v51
        # nextln:   v53 = i64.sub v52, 0x1
        # nextln:   v54 = i64.and v37, v53
        # nextln:   v55 = i64.sub 0x40, 0x1
        # nextln:   v56 = i64.lshl v54, v55
        # nextln:   v57 = i64.lshl 0x1, v51
        # nextln:   v58 = i64.sub v57, 0x1
        # nextln:   v59 = i64.lshl v58, v55
        # nextln:   v60 = i64.not v59
        # nextln:   v61 = i64.and v37, v60
        # nextln:   v62 = i64.or v56, v61
        # nextln:   i64.write_reg v62, "x1"
        # nextln:   jump block_4"#;

    assert!(check_instruction(&bytes, directives));
}

#[test]
fn test_bfm_3() {
    let bytes = [
        0x41, 0xC8, 0x42, 0xB3, // bfm x1, x2, #2, #50 <=> bfxil x1, x2, #2, #49
    ];
    let directives = r#"
        check: // entry block
        nextln:   v37 = i64.read_reg "x2"
        nextln:   v38 = i64.icmp.uge 0x32, 0x2
        nextln:   jumpif v38, bfm_positive_condition, bfm_negative_condition
        check: bfm_positive_condition: // preds: entry
        nextln:   v39 = i64.add 0x1, 0x32
        nextln:   v40 = i64.sub v39, 0x2
        nextln:   v41 = i64.lshl 0x1, v40
        nextln:   v42 = i64.sub v41, 0x1
        nextln:   v43 = i64.lshl v42, 0x2
        nextln:   v44 = i64.and v37, v43
        nextln:   v45 = i64.lshr v44, 0x2
        nextln:   v46 = i64.lshl 0x1, v40
        nextln:   v47 = i64.sub v46, 0x1
        nextln:   v48 = i64.not v47
        nextln:   v49 = i64.and v37, v48
        nextln:   v50 = i64.or v45, v49
        nextln:   i64.write_reg v50, "x1"
        nextln:   jump block_4
        check: bfm_negative_condition: // preds: entry
        nextln:   v51 = i64.add 0x1, 0x32
        nextln:   v52 = i64.lshl 0x1, v51
        nextln:   v53 = i64.sub v52, 0x1
        nextln:   v54 = i64.and v37, v53
        nextln:   v55 = i64.sub 0x40, 0x2
        nextln:   v56 = i64.lshl v54, v55
        nextln:   v57 = i64.lshl 0x1, v51
        nextln:   v58 = i64.sub v57, 0x1
        nextln:   v59 = i64.lshl v58, v55
        nextln:   v60 = i64.not v59
        nextln:   v61 = i64.and v37, v60
        nextln:   v62 = i64.or v56, v61
        nextln:   i64.write_reg v62, "x1"
        nextln:   jump block_4"#;

    assert!(check_instruction(&bytes, directives));
}

#[test]
fn bfm_simple_test() {
    let bytes = [
        0x41, 0x78, 0x0C, 0x33, // bfm w1, w2, #12, #30 <=> bfxil w1, w2, #12, #19
        0x41, 0xC8, 0x42, 0xB3, // bfm x1, x2, #2, #50 <=> bfxil x1, x2, #2, #49
        0x41, 0x04, 0x41, 0xB3, // bfm x1, x2, #1, #1 <=> bfxil x1, x2, #1, #1
    ];

    let lifter = AArch64Lifter;
    let blob = lifter.lift(&bytes, &[]).unwrap();

    println!("{}", blob.display());
}

#[test]
fn test_bic_1() {
    let bytes = [
        0x41, 0x08, 0x23, 0x0A, // bic w1, w2, w3, lsl #2
    ];
    let directives = r#"
        check: // entry block
        nextln: v37 = i32.read_reg "x2"
        nextln: v38 = i32.read_reg "x3"
        nextln: v39 = i32.lshl v38, 0x2
        nextln: v40 = i32.bitwise_not v39
        nextln: v41 = i32.and v37, v40
        nextln: i32.write_reg v41, "x1"
    "#;

    assert!(check_instruction(&bytes, directives));
}

#[test]
fn test_bic_2() {
    let bytes = [
        0x41, 0x0C, 0x23, 0x8A, // bic x1, x2, x3, lsl #3
    ];
    let directives = r#"
        check: // entry block
        nextln: v37 = i64.read_reg "x2"
        nextln: v38 = i64.read_reg "x3"
        nextln: v39 = i64.lshl v38, 0x3
        nextln: v40 = i64.bitwise_not v39
        nextln: v41 = i64.and v37, v40
        nextln: i64.write_reg v41, "x1"
    "#;

    assert!(check_instruction(&bytes, directives));
}

#[test]
fn test_bic_3() {
    let bytes = [
        0x41, 0x04, 0xA3, 0x8A, // bic x1, x2, x3, asr #1
    ];
    let directives = r#"
        check: // entry block
        nextln: v37 = i64.read_reg "x2"
        nextln: v38 = i64.read_reg "x3"
        nextln: v39 = i64.ashr v38, 0x1
        nextln: v40 = i64.bitwise_not v39
        nextln: v41 = i64.and v37, v40
        nextln: i64.write_reg v41, "x1"
    "#;

    assert!(check_instruction(&bytes, directives));
}

#[test]
fn bic_simple_test() {
    let bytes = [
        0x41, 0x08, 0x23, 0x0A, // bic w1, w2, w3, lsl #2
        0x41, 0x0C, 0x23, 0x8A, // bic x1, x2, x3, lsl #3
        0x41, 0x04, 0xA3, 0x8A, // bic x1, x2, x3, asr #1
    ];

    let lifter = AArch64Lifter;
    let blob = lifter.lift(&bytes, &[]).unwrap();

    println!("{}", blob.display());
}

#[test]
fn test_bl_1() {
    let bytes = [
        0x02, 0x00, 0x00, 0x94, // bl, pc
    ];
    let directives = r#"
        check: // entry block
        nextln: v37 = i64.read_reg "pc"
        nextln: v38 = i64.add v37, 0x4
        nextln: i64.write_reg v38, "x30"
        nextln: jump $LABEL
    "#;

    assert!(check_instruction(&bytes, directives));
}

#[test]
fn test_bl_2() {
    let bytes = [
        0x01, 0x00, 0x00, 0x94, // bl, pc+1
    ];
    let directives = r#"
        check: // entry block
        nextln: v37 = i64.read_reg "pc"
        nextln: v38 = i64.add v37, 0x4
        nextln: i64.write_reg v38, "x30"
        nextln: jump $LABEL
    "#;

    assert!(check_instruction(&bytes, directives));
}

#[test]
fn test_bl_3() {
    let bytes = [
        0xfe, 0xff, 0xff, 0x97, // bl, pc-2
    ];
    let directives = r#"
        check: // entry block
        nextln: v37 = i64.read_reg "pc"
        nextln: v38 = i64.add v37, 0x4
        nextln: i64.write_reg v38, "x30"
        nextln: jump $LABEL
    "#;

    assert!(check_instruction(&bytes, directives));
}

#[test]
fn bl_simple_test() {
    let bytes = [
        0x02, 0x00, 0x00, 0x94, // bl, pc
        0x01, 0x00, 0x00, 0x94, // bl, pc+1
        0xfe, 0xff, 0xff, 0x97, // bl, pc-2
    ];

    let lifter = AArch64Lifter;
    let blob = lifter.lift(&bytes, &[]).unwrap();

    println!("{}", blob.display());
}

#[test]
fn blr_test_blr_1() {
    let bytes = [
        0x20, 0x00, 0x3F, 0xD6, // blr x1
    ];
    let directives = r#"
        check: // entry block
        nextln: v37 = i64.read_reg "pc"
        nextln: v38 = i64.add v37, 0x4
        nextln: i64.write_reg v38, "x30"
        nextln: v39 = i64.read_reg "x1"
        nextln: dynamic_jump v39
    "#;

    assert!(check_instruction(&bytes, directives));
}

#[test]
fn br_test_blr_1() {
    let bytes = [
        0x20, 0x00, 0x1F, 0xD6, // blr x1
    ];
    let directives = r#"
        check: // entry block
        nextln: v37 = i64.read_reg "x1"
        nextln: dynamic_jump v37
    "#;

    assert!(check_instruction(&bytes, directives));
}

#[test]
fn cbnz_test() {
    let bytes = [
        0x00, 0x00, 0x00, 0xB5, // cbnz x0, pc
        0xE0, 0xFF, 0xFF, 0x35, // cbnz w0, pc-1
        0x20, 0x80, 0x00, 0xB5, // cbnz x0, pc+1
    ];

    let lifter = AArch64Lifter;
    let blob = lifter.lift(&bytes, &[]).unwrap();

    println!("{}", blob.display());
}

#[test]
fn test_cbz_1() {
    let bytes = [
        0x00, 0x00, 0x00, 0x34, // cbz w0, pc
    ];
    let directives = r#"
        check: // entry block
        check: block_0:
        nextln:   v37 = i32.read_reg "x0"
        nextln:   v38 = i32.icmp.eq v37, 0x0
        nextln:   jumpif v38, $LABEL, $LABEL
    "#;

    assert!(check_instruction(&bytes, directives));
}

#[test]
fn test_cbz_2() {
    let bytes = [
        0x20, 0x00, 0x00, 0xB4, // cbz x0, pc+1
    ];
    let directives = r#"
        check: // entry block
        nextln: v37 = i64.read_reg "x0"
        nextln: v38 = i64.icmp.eq v37, 0x0
        nextln: jumpif v38, $LABEL, $LABEL
    "#;

    assert!(check_instruction(&bytes, directives));
}

#[test]
fn test_cbz_3() {
    let bytes = [
        0xC1, 0xFF, 0xFF, 0xB4, // cbz x1, pc-2
    ];
    let directives = r#"
        check: // entry block
        nextln: v37 = i64.read_reg "x1"
        nextln: v38 = i64.icmp.eq v37, 0x0
        nextln: jumpif v38, $LABEL, $LABEL
    "#;

    assert!(check_instruction(&bytes, directives));
}

#[test]
fn cbz_simple_test() {
    let bytes = [
        0x00, 0x00, 0x00, 0x34, // cbz w0, current_address
        0x20, 0x00, 0x00, 0xB4, // cbz x0, current_address + 1
        0xC1, 0xFF, 0xFF, 0xB4, // cbz x1, current_address - 2
    ];

    let lifter = AArch64Lifter;
    let blob = lifter.lift(&bytes, &[]).unwrap();

    println!("{}", blob.display());
}

#[test]
fn test_ccmn_1() {
    let bytes = [
        0x03, 0x00, 0x41, 0xBA, // ccmn x0, x1, #0x3, eq
    ];
    let directives = r#"
        check: // entry block
        nextln:   v37 = i1.read_reg "z"
        nextln:   v38 = i1.icmp.eq v37, 0x1
        nextln:   jumpif v38, ccmp_positive_condition, ccmp_negative_condition
        check: ccmp_positive_condition:
        nextln:   v39 = i64.read_reg "x0"
        nextln:   v40 = i64.read_reg "x1"
        nextln:   v41 = i64.sub 0x0, v40
        nextln:   v42 = i64.not v41
        nextln:   v43 = i64.add v39, v42
        nextln:   v44 = i64.add v43, 0x1
        nextln:   v45 = i64.icmp.eq v44, 0x0
        nextln:   i1.write_reg v45, "z"
        nextln:   v46 = i64.icmp.slt v44, 0x0
        nextln:   i1.write_reg v46, "n"
        nextln:   v47 = i64.icmp.ugt v39, v44
        nextln:   v48 = i64.icmp.ugt v42, v44
        nextln:   v49 = i1.or v47, v48
        nextln:   i1.write_reg v49, "c"
        nextln:   v50 = i64.icmp.slt v39, 0x0
        nextln:   v51 = i64.icmp.slt v42, 0x0
        nextln:   v52 = i1.icmp.eq v50, v51
        nextln:   v53 = i1.icmp.ne v50, v46
        nextln:   v54 = i1.and v52, v53
        nextln:   i1.write_reg v54, "v"
        nextln:   jump $LABEL
        check: ccmp_negative_condition
        nextln:   v55 = i64.and 0x8, 0x3
        nextln:   v56 = i64.icmp.ne 0x0, v55
        nextln:   i1.write_reg v56, "n"
        nextln:   v57 = i64.and 0x4, 0x3
        nextln:   v58 = i64.icmp.ne 0x0, v57
        nextln:   i1.write_reg v58, "z"
        nextln:   v59 = i64.and 0x2, 0x3
        nextln:   v60 = i64.icmp.ne 0x0, v59
        nextln:   i1.write_reg v60, "c"
        nextln:   v61 = i64.and 0x1, 0x3
        nextln:   v62 = i64.icmp.ne 0x0, v61
        nextln:   i1.write_reg v62, "v"
        nextln:   jump $LABEL 
   "#;

    assert!(check_instruction(&bytes, directives));
}

#[test]
fn test_ccmn_2() {
    let bytes = [
        0xC0, 0xE0, 0x46, 0xBA, // ccmn x6, x6, #0x0, al
    ];
    let directives = r#"
        check: // entry block
        nextln:   v37 = i1.and 0x1, 0x1
        nextln:   jumpif v37, ccmp_positive_condition, ccmp_negative_condition
        check: ccmp_positive_condition: //
        nextln:   v38 = i64.read_reg "x6"
        nextln:   v39 = i64.read_reg "x6"
        nextln:   v40 = i64.sub 0x0, v39
        nextln:   v41 = i64.not v40
        nextln:   v42 = i64.add v38, v41
        nextln:   v43 = i64.add v42, 0x1
        nextln:   v44 = i64.icmp.eq v43, 0x0
        nextln:   i1.write_reg v44, "z"
        nextln:   v45 = i64.icmp.slt v43, 0x0
        nextln:   i1.write_reg v45, "n"
        nextln:   v46 = i64.icmp.ugt v38, v43
        nextln:   v47 = i64.icmp.ugt v41, v43
        nextln:   v48 = i1.or v46, v47
        nextln:   i1.write_reg v48, "c"
        nextln:   v49 = i64.icmp.slt v38, 0x0
        nextln:   v50 = i64.icmp.slt v41, 0x0
        nextln:   v51 = i1.icmp.eq v49, v50
        nextln:   v52 = i1.icmp.ne v49, v45
        nextln:   v53 = i1.and v51, v52
        nextln:   i1.write_reg v53, "v"
        nextln:   jump $LABEL
        check: ccmp_negative_condition:
        nextln:   v54 = i64.and 0x8, 0x0
        nextln:   v55 = i64.icmp.ne 0x0, v54
        nextln:   i1.write_reg v55, "n"
        nextln:   v56 = i64.and 0x4, 0x0
        nextln:   v57 = i64.icmp.ne 0x0, v56
        nextln:   i1.write_reg v57, "z"
        nextln:   v58 = i64.and 0x2, 0x0
        nextln:   v59 = i64.icmp.ne 0x0, v58
        nextln:   i1.write_reg v59, "c"
        nextln:   v60 = i64.and 0x1, 0x0
        nextln:   v61 = i64.icmp.ne 0x0, v60
        nextln:   i1.write_reg v61, "v"
        nextln:   jump $LABEL
    "#;

    assert!(check_instruction(&bytes, directives));
}

#[test]
fn test_ccmn_3() {
    let bytes = [
        0x04, 0x60, 0x42, 0x3A, // ccmn w0, w2, #0x4, vs
    ];
    let directives = r#"
        check: // entry block
        nextln:   v37 = i1.read_reg "v"
        nextln:   v38 = i1.icmp.eq v37, 0x1
        nextln:   jumpif v38, ccmp_positive_condition, ccmp_negative_condition
        check: ccmp_positive_condition:
        nextln:   v39 = i32.read_reg "x0"
        nextln:   v40 = i32.read_reg "x2"
        nextln:   v41 = i32.sub 0x0, v40
        nextln:   v42 = i32.not v41
        nextln:   v43 = i32.add v39, v42
        nextln:   v44 = i32.add v43, 0x1
        nextln:   v45 = i32.icmp.eq v44, 0x0
        nextln:   i1.write_reg v45, "z"
        nextln:   v46 = i32.icmp.slt v44, 0x0
        nextln:   i1.write_reg v46, "n"
        nextln:   v47 = i32.icmp.ugt v39, v44
        nextln:   v48 = i32.icmp.ugt v42, v44
        nextln:   v49 = i1.or v47, v48
        nextln:   i1.write_reg v49, "c"
        nextln:   v50 = i32.icmp.slt v39, 0x0
        nextln:   v51 = i32.icmp.slt v42, 0x0
        nextln:   v52 = i1.icmp.eq v50, v51
        nextln:   v53 = i1.icmp.ne v50, v46
        nextln:   v54 = i1.and v52, v53
        nextln:   i1.write_reg v54, "v"
        nextln:   jump $LABEL
        check: ccmp_negative_condition:
        nextln:   v55 = i32.and 0x8, 0x4
        nextln:   v56 = i32.icmp.ne 0x0, v55
        nextln:   i1.write_reg v56, "n"
        nextln:   v57 = i32.and 0x4, 0x4
        nextln:   v58 = i32.icmp.ne 0x0, v57
        nextln:   i1.write_reg v58, "z"
        nextln:   v59 = i32.and 0x2, 0x4
        nextln:   v60 = i32.icmp.ne 0x0, v59
        nextln:   i1.write_reg v60, "c"
        nextln:   v61 = i32.and 0x1, 0x4
        nextln:   v62 = i32.icmp.ne 0x0, v61
        nextln:   i1.write_reg v62, "v"
        nextln:   jump $LABEL
    "#;

    assert!(check_instruction(&bytes, directives));
}

#[test]
fn test_ccmp_1() {
    let bytes = [
        0x03, 0x00, 0x41, 0xFA, // ccmp x0, x1, #0x3, eq
    ];
    let directives = r#"
        check: // entry block
        nextln:   v37 = i1.read_reg "z"
        nextln:   v38 = i1.icmp.eq v37, 0x1
        nextln:   jumpif v38, ccmp_positive_condition, ccmp_negative_condition
        check: ccmp_positive_condition:
        nextln:   v39 = i64.read_reg "x0"
        nextln:   v40 = i64.read_reg "x1"
        nextln:   v41 = i64.not v40
        nextln:   v42 = i64.add v39, v41
        nextln:   v43 = i64.add v42, 0x0
        nextln:   v44 = i64.icmp.eq v43, 0x0
        nextln:   i1.write_reg v44, "z"
        nextln:   v45 = i64.icmp.slt v43, 0x0
        nextln:   i1.write_reg v45, "n"
        nextln:   v46 = i64.icmp.ugt v39, v43
        nextln:   v47 = i64.icmp.ugt v41, v43
        nextln:   v48 = i1.or v46, v47
        nextln:   i1.write_reg v48, "c"
        nextln:   v49 = i64.icmp.slt v39, 0x0
        nextln:   v50 = i64.icmp.slt v41, 0x0
        nextln:   v51 = i1.icmp.eq v49, v50
        nextln:   v52 = i1.icmp.ne v49, v45
        nextln:   v53 = i1.and v51, v52
        nextln:   i1.write_reg v53, "v"
        nextln:   jump $LABEL
        check: ccmp_negative_condition:
        nextln:   v54 = i64.and 0x8, 0x3
        nextln:   v55 = i64.icmp.ne 0x0, v54
        nextln:   i1.write_reg v55, "n"
        nextln:   v56 = i64.and 0x4, 0x3
        nextln:   v57 = i64.icmp.ne 0x0, v56
        nextln:   i1.write_reg v57, "z"
        nextln:   v58 = i64.and 0x2, 0x3
        nextln:   v59 = i64.icmp.ne 0x0, v58
        nextln:   i1.write_reg v59, "c"
        nextln:   v60 = i64.and 0x1, 0x3
        nextln:   v61 = i64.icmp.ne 0x0, v60
        nextln:   i1.write_reg v61, "v"
        nextln:   jump $LABEL
    "#;

    check_instruction(&bytes, directives);
}

#[test]
fn test_ccmp_2() {
    let bytes = [
        0x04, 0x60, 0x42, 0x7A, // ccmp w0, w2, #0x4, vs
    ];
    let directives = r#"
        check: // entry block
        nextln:   v37 = i1.read_reg "v"
        nextln:   v38 = i1.icmp.eq v37, 0x1
        nextln:   jumpif v38, ccmp_positive_condition, ccmp_negative_condition
        check: ccmp_positive_condition:
        nextln:   v39 = i32.read_reg "x0"
        nextln:   v40 = i32.read_reg "x2"
        nextln:   v41 = i32.not v40
        nextln:   v42 = i32.add v39, v41
        nextln:   v43 = i32.add v42, 0x0
        nextln:   v44 = i32.icmp.eq v43, 0x0
        nextln:   i1.write_reg v44, "z"
        nextln:   v45 = i32.icmp.slt v43, 0x0
        nextln:   i1.write_reg v45, "n"
        nextln:   v46 = i32.icmp.ugt v39, v43
        nextln:   v47 = i32.icmp.ugt v41, v43
        nextln:   v48 = i1.or v46, v47
        nextln:   i1.write_reg v48, "c"
        nextln:   v49 = i32.icmp.slt v39, 0x0
        nextln:   v50 = i32.icmp.slt v41, 0x0
        nextln:   v51 = i1.icmp.eq v49, v50
        nextln:   v52 = i1.icmp.ne v49, v45
        nextln:   v53 = i1.and v51, v52
        nextln:   i1.write_reg v53, "v"
        nextln:   jump $LABEL
        check: ccmp_negative_condition:
        nextln:   v54 = i32.and 0x8, 0x4
        nextln:   v55 = i32.icmp.ne 0x0, v54
        nextln:   i1.write_reg v55, "n"
        nextln:   v56 = i32.and 0x4, 0x4
        nextln:   v57 = i32.icmp.ne 0x0, v56
        nextln:   i1.write_reg v57, "z"
        nextln:   v58 = i32.and 0x2, 0x4
        nextln:   v59 = i32.icmp.ne 0x0, v58
        nextln:   i1.write_reg v59, "c"
        nextln:   v60 = i32.and 0x1, 0x4
        nextln:   v61 = i32.icmp.ne 0x0, v60
        nextln:   i1.write_reg v61, "v"
        nextln:   jump $LABEL
  "#;

    check_instruction(&bytes, directives);
}

#[test]
fn test_ccmp_3() {
    let bytes = [
        0xC0, 0xE0, 0x46, 0xFA, // ccmp x6, x6, #0x0, al
    ];
    let directives = r#"
        check: // entry block
        nextln:   v37 = i1.and 0x1, 0x1
        nextln:   jumpif v37, ccmp_positive_condition, ccmp_negative_condition
        check: ccmp_positive_condition:
        nextln:   v38 = i64.read_reg "x6"
        nextln:   v39 = i64.read_reg "x6"
        nextln:   v40 = i64.not v39
        nextln:   v41 = i64.add v38, v40
        nextln:   v42 = i64.add v41, 0x0
        nextln:   v43 = i64.icmp.eq v42, 0x0
        nextln:   i1.write_reg v43, "z"
        nextln:   v44 = i64.icmp.slt v42, 0x0
        nextln:   i1.write_reg v44, "n"
        nextln:   v45 = i64.icmp.ugt v38, v42
        nextln:   v46 = i64.icmp.ugt v40, v42
        nextln:   v47 = i1.or v45, v46
        nextln:   i1.write_reg v47, "c"
        nextln:   v48 = i64.icmp.slt v38, 0x0
        nextln:   v49 = i64.icmp.slt v40, 0x0
        nextln:   v50 = i1.icmp.eq v48, v49
        nextln:   v51 = i1.icmp.ne v48, v44
        nextln:   v52 = i1.and v50, v51
        nextln:   i1.write_reg v52, "v"
        nextln:   jump block_4
        check: ccmp_negative_condition:
        nextln:   v53 = i64.and 0x8, 0x0
        nextln:   v54 = i64.icmp.ne 0x0, v53
        nextln:   i1.write_reg v54, "n"
        nextln:   v55 = i64.and 0x4, 0x0
        nextln:   v56 = i64.icmp.ne 0x0, v55
        nextln:   i1.write_reg v56, "z"
        nextln:   v57 = i64.and 0x2, 0x0
        nextln:   v58 = i64.icmp.ne 0x0, v57
        nextln:   i1.write_reg v58, "c"
        nextln:   v59 = i64.and 0x1, 0x0
        nextln:   v60 = i64.icmp.ne 0x0, v59
        nextln:   i1.write_reg v60, "v"
        nextln:   jump $LABEL
  "#;

    check_instruction(&bytes, directives);
}

#[test]
fn ccmp_simple_test() {
    let bytes = [
        0x03, 0x00, 0x41, 0xFA, // ccmp x0, x1, #0x3, eq
        0x49, 0x50, 0x43, 0xFA, // ccmp x2, x3, #0x9, pl
        0x04, 0x60, 0x42, 0x7A, // ccmp w0, w2, #0x4, vs
        0xC0, 0xE0, 0x46, 0xFA, // ccmp x6, x6, #0x0, al
    ];

    let lifter = AArch64Lifter;
    let blob = lifter.lift(&bytes, &[]).unwrap();

    println!("{}", blob.display());
}

#[test]
fn test_cls_1() {
    let bytes = [
        0x41, 0x14, 0xC0, 0xDA, // cls x1, x2
    ];
    let directives = r#"
        check: // entry block
        nextln: v37 = i64.read_reg "x2"
        nextln: v38 = i64.not 0x1
        nextln: v39 = i64.and v37, v38
        nextln: v40 = i64.lshl v37, 0x1
        nextln: v41 = i64.xor v39, v40
        nextln: v42 = i64.highest_set_bit v41
        nextln: v43 = i64.sub 0x40, v42
        nextln: v44 = i64.sub v43, 0x1
        nextln: i64.write_reg v44, "x1"
    "#;

    assert!(check_instruction(&bytes, directives));
}

#[test]
fn test_cls_2() {
    let bytes = [
        0x41, 0x14, 0xC0, 0x5A, // cls w1, w2
    ];
    let directives = r#"
        check: // entry block
        nextln: v37 = i32.read_reg "x2"
        nextln: v38 = i32.not 0x1
        nextln: v39 = i32.and v37, v38
        nextln: v40 = i32.lshl v37, 0x1
        nextln: v41 = i32.xor v39, v40
        nextln: v42 = i32.highest_set_bit v41
        nextln: v43 = i32.sub 0x20, v42
        nextln: v44 = i32.sub v43, 0x1
        nextln: i32.write_reg v44, "x1"
    "#;

    assert!(check_instruction(&bytes, directives));
}

#[test]
fn test_clz_1() {
    let bytes = [
        0x41, 0x10, 0xC0, 0xDA, // clz x1, x2
    ];
    let directives = r#"
        check: // entry block
        nextln: v37 = i64.read_reg "x2"
        nextln: v38 = i64.highest_set_bit v37
        nextln: v39 = i64.sub 0x40, v38
        nextln: v40 = i64.sub v39, 0x1
        nextln: i64.write_reg v40, "x1"
    "#;

    assert!(check_instruction(&bytes, directives));
}

#[test]
fn test_clz_2() {
    let bytes = [
        0x41, 0x10, 0xC0, 0x5A, // clz w1, w2
    ];
    let directives = r#"
        check: // entry block
        nextln: v37 = i32.read_reg "x2"
        nextln: v38 = i32.highest_set_bit v37
        nextln: v39 = i32.sub 0x20, v38
        nextln: v40 = i32.sub v39, 0x1
        nextln: i32.write_reg v40, "x1"
    "#;

    assert!(check_instruction(&bytes, directives));
}

#[test]
fn clz_simple_test() {
    let bytes = [
        0x41, 0x10, 0xC0, 0xDA, // clz x1, x2
        0x41, 0x10, 0xC0, 0x5A, // clz w1, w2
    ];

    let lifter = AArch64Lifter;
    let blob = lifter.lift(&bytes, &[]).unwrap();

    println!("{}", blob.display());
}

#[test]
fn test_csel_1() {
    let bytes = [
        0x20, 0x40, 0x82, 0x9A, // csel x0, x1, x2, mi = first
    ];
    let directives = r#"
        check: // entry block
        nextln:   v37 = i1.read_reg "n"
        nextln:   v38 = i1.icmp.eq v37, 0x1
        nextln:   jumpif v38, csel_positive_condition, csel_negative_condition
        check: csel_positive_condition:
        nextln:   v39 = i64.read_reg "x1"
        nextln:   i64.write_reg v39, "x0"
        nextln:   jump $LABEL 
        check: csel_negative_condition:
        nextln:   v40 = i64.read_reg "x2"
        nextln:   i64.write_reg v40, "x0"
        nextln:   jump $LABEL
        "#;

    assert!(check_instruction(&bytes, directives));
}

#[test]
fn test_csel_2() {
    let bytes = [
        0x20, 0x20, 0x82, 0x9A, // csel x0, x1, x2, cs = hs, nlast
    ];
    let directives = r#"
        check: // entry block
        nextln:   v37 = i1.read_reg "c"
        nextln:   v38 = i1.icmp.eq v37, 0x1
        nextln:   jumpif v38, csel_positive_condition, csel_negative_condition
        check: csel_positive_condition:
        nextln:   v39 = i64.read_reg "x1"
        nextln:   i64.write_reg v39, "x0"
        nextln:   jump $LABEL
        check: csel_negative_condition:
        nextln:   v40 = i64.read_reg "x2"
        nextln:   i64.write_reg v40, "x0"
        nextln:   jump $LABEL
    "#;

    assert!(check_instruction(&bytes, directives));
}

#[test]
fn test_csel_3() {
    let bytes = [
        0x20, 0x00, 0x82, 0x1A, // csel w0, w1, w2, eq = none
    ];
    let directives = r#"
        check: // entry block
        nextln:   v37 = i1.read_reg "z"
        nextln:   v38 = i1.icmp.eq v37, 0x1
        nextln:   jumpif v38, csel_positive_condition, csel_negative_condition
        check: csel_positive_condition:
        nextln:   v39 = i32.read_reg "x1"
        nextln:   i32.write_reg v39, "x0"
        nextln:   jump $LABEL
        check: csel_negative_condition:
        nextln:   v40 = i32.read_reg "x2"
        nextln:   i32.write_reg v40, "x0"
        nextln:   jump $LABEL
    "#;

    assert!(check_instruction(&bytes, directives));
}

#[test]
fn csel_simple_test() {
    let bytes = [
        0x20, 0x20, 0x82, 0x9A, // csel x0, x1, x2, cs = hs, nlast
        0x20, 0x00, 0x82, 0x1A, // csel w0, w1, w2, eq = none
        0x20, 0x40, 0x82, 0x9A, // csel x0, x1, x2, mi = first
    ];

    let lifter = AArch64Lifter;
    let blob = lifter.lift(&bytes, &[]).unwrap();

    println!("{}", blob.display());
}

#[test]
fn test_csinc_1() {
    let bytes = [
        0x20, 0x04, 0x82, 0x9A, // csinc x0, x1, x2, EQ
    ];
    let directives = r#"
        check: // entry block
        nextln:   v37 = i1.read_reg "z"
        nextln:   v38 = i1.icmp.eq v37, 0x1
        nextln:   jumpif v38, csinc_positive_condition, csinc_negative_condition
        check:  csinc_positive_condition:
        nextln:   v39 = i64.read_reg "x1"
        nextln:   i64.write_reg v39, "x0"
        nextln:   jump $LABEL
        check:  csinc_negative_condition:
        nextln:   v40 = i64.read_reg "x2"
        nextln:   v41 = i64.add v40, 0x1
        nextln:   i64.write_reg v41, "x0"
        nextln:   jump $LABEL
    "#;

    check_instruction(&bytes, directives);
}

#[test]
fn test_csinc_2() {
    let bytes = [
        0x20, 0x04, 0x84, 0x1A, // csinc w0, w1, w2, EQ
    ];
    let directives = r#"
        check: // entry block
        nextln:   v37 = i1.read_reg "z"
        nextln:   v38 = i1.icmp.eq v37, 0x1
        nextln:   jumpif v38, csinc_positive_condition, csinc_negative_condition
        check: csinc_positive_condition:
        nextln:   v39 = i32.read_reg "x1"
        nextln:   i32.write_reg v39, "x0"
        nextln:   jump $LABEL
        check: csinc_negative_condition:
        nextln:   v40 = i32.read_reg "x4"
        nextln:   v41 = i32.add v40, 0x1
        nextln:   i32.write_reg v41, "x0"
        nextln:   jump $LABEL
    "#;

    check_instruction(&bytes, directives);
}

#[test]
fn test_csinc_3() {
    let bytes = [
        0x62, 0xD4, 0x84, 0x9A, // csinc x2, x3, x4, LE
    ];
    let directives = r#"
        check: // entry block
        nextln:   v37 = i1.read_reg "z"
        nextln:   v38 = i1.read_reg "n"
        nextln:   v39 = i1.read_reg "v"
        nextln:   v40 = i1.icmp.eq v37, 0x1
        nextln:   v41 = i1.icmp.ne v38, v39
        nextln:   v42 = i1.or v40, v41
        nextln:   jumpif v42, csinc_positive_condition, csinc_negative_condition
        check: csinc_positive_condition:
        nextln:   v43 = i64.read_reg "x3"
        nextln:   i64.write_reg v43, "x2"
        nextln:   jump $LABEL
        check: csinc_negative_condition:
        nextln:   v44 = i64.read_reg "x4"
        nextln:   v45 = i64.add v44, 0x1
        nextln:   i64.write_reg v45, "x2"
        nextln:   jump $LABEL
    "#;

    check_instruction(&bytes, directives);
}

#[test]
fn test_csinv_1() {
    let bytes = [
        0x41, 0xA0, 0x83, 0x5A, // csinv w1, w2, w3, ge
    ];
    let directives = r#"
        check: // entry block
        nextln:   v37 = i1.read_reg "n"
        nextln:   v38 = i1.read_reg "v"
        nextln:   v39 = i1.icmp.eq v37, v38
        nextln:   jumpif v39, csinv_positive_condition, csinv_negative_condition
        check: csinv_positive_condition:
        nextln:   $VAR_NAME = i32.read_reg "x2"
        nextln:   i32.write_reg $VAR_NAME, "x1"
        nextln:   jump $LABEL
        check: csinv_negative_condition:
        nextln:   $VAR_NAME = i32.read_reg "x3"
        nextln:   $VAR_NAME = i32.not $VAR_NAME 
        nextln:   i32.write_reg $VAR_NAME, "x1"
        nextln:   jump $LABEL
    "#;

    assert!(check_instruction(&bytes, directives));
}

#[test]
fn test_csinv_2() {
    let bytes = [
        0x41, 0xA0, 0x83, 0xDA, // csinv x1, x2, x3, ge
    ];
    let directives = r#"
        check: // entry block
        nextln:   v37 = i1.read_reg "n"
        nextln:   v38 = i1.read_reg "v"
        nextln:   v39 = i1.icmp.eq v37, v38
        nextln:   jumpif v39, csinv_positive_condition, csinv_negative_condition
        check: csinv_positive_condition:
        nextln:   $VAR_NAME = i64.read_reg "x2"
        nextln:   i64.write_reg $VAR_NAME, "x1"
        nextln:   jump $LABEL
        check: csinv_negative_condition:
        nextln:   $VAR_NAME = i64.read_reg "x3"
        nextln:   $VAR_NAME = i64.not $VAR_NAME
        nextln:   i64.write_reg $VAR_NAME, "x1"
        nextln:   jump $LABEL
    "#;

    assert!(check_instruction(&bytes, directives));
}

#[test]
fn test_csinv_3() {
    let bytes = [
        0x21, 0x30, 0x82, 0xDA, // csinv x1, x1, x2, cc
    ];
    let directives = r#"
        check: // entry block
        nextln:   v37 = i1.read_reg "c"
        nextln:   v38 = i1.icmp.ne v37, 0x1
        nextln:   jumpif v38, csinv_positive_condition, csinv_negative_condition
        check: csinv_positive_condition:
        nextln:   v39 = i64.read_reg "x1"
        nextln:   i64.write_reg v39, "x1"
        nextln:   jump $LABEL
        check: csinv_negative_condition:
        nextln:   v40 = i64.read_reg "x2"
        nextln:   v41 = i64.not v40
        nextln:   i64.write_reg v41, "x1"
        nextln:   jump $LABEL
    "#;

    assert!(check_instruction(&bytes, directives));
}

use rustedjvm::classes::{Class, ClassFile};
use rustedjvm::constants::{
    ClassConstant, ConstantPoolEntry, FieldRefConstant, MethodRefConstant, NameAndTypeConstant,
    Utf8Constant,
};
use rustedjvm::error::DecodeError;
use rustedjvm::interpreter::{
    aload_0, getstatic, iconst_3, invokespecial, run, run_method, Control, Frame, Object, Operand,
};
use rustedjvm::resolution::ResolvedMember;
use std::collections::HashMap;

fn utf8_bytes(text: &str) -> Vec<u8> {
    let mut bytes = vec![0x01, (text.len() >> 8) as u8, text.len() as u8];
    bytes.extend_from_slice(text.as_bytes());
    bytes
}

fn pool_bytes() -> Vec<u8> {
    let mut bytes = vec![0xca, 0xfe, 0xba, 0xbe, 0x00, 0x00, 0x00, 0x34, 0x00, 0x16];
    bytes.extend_from_slice(&[0x0a, 0x00, 0x03, 0x00, 0x0a]); // 1: Object.<init>:()V
    bytes.extend_from_slice(&[0x07, 0x00, 0x0b]); // 2: this class
    bytes.extend_from_slice(&[0x07, 0x00, 0x0c]); // 3: java/lang/Object
    bytes.extend_from_slice(&utf8_bytes("<init>")); // 4
    bytes.extend_from_slice(&utf8_bytes("()V")); // 5
    bytes.extend_from_slice(&utf8_bytes("Code")); // 6
    bytes.extend_from_slice(&utf8_bytes("LineNumberTable")); // 7
    bytes.extend_from_slice(&utf8_bytes("main")); // 8
    bytes.extend_from_slice(&utf8_bytes("SourceFile")); // 9
    bytes.extend_from_slice(&[0x0c, 0x00, 0x04, 0x00, 0x05]); // 10: <init>:()V
    bytes.extend_from_slice(&utf8_bytes("Simple")); // 11
    bytes.extend_from_slice(&utf8_bytes("java/lang/Object")); // 12
    bytes.extend_from_slice(&utf8_bytes("Simple.java")); // 13
    bytes.extend_from_slice(&utf8_bytes("([Ljava/lang/String;)V")); // 14
    bytes.extend_from_slice(&[0x09, 0x00, 0x10, 0x00, 0x11]); // 15: System.out
    bytes.extend_from_slice(&[0x07, 0x00, 0x12]); // 16: java/lang/System
    bytes.extend_from_slice(&[0x0c, 0x00, 0x13, 0x00, 0x14]); // 17: out:PrintStream
    bytes.extend_from_slice(&utf8_bytes("java/lang/System")); // 18
    bytes.extend_from_slice(&utf8_bytes("out")); // 19
    bytes.extend_from_slice(&utf8_bytes("Ljava/io/PrintStream;")); // 20
    bytes.extend_from_slice(&[0x0a, 0x00, 0x02, 0x00, 0x0a]); // 21: Simple.<init>:()V
    bytes
}

fn coded_method(name: u16, code: &[u8]) -> Vec<u8> {
    let mut bytes = vec![0x00, 0x01, (name >> 8) as u8, name as u8, 0x00, 0x05, 0x00, 0x01];
    bytes.extend_from_slice(&[0x00, 0x06, 0x00, 0x00, 0x00, (12 + code.len()) as u8]);
    bytes.extend_from_slice(&[0x00, 0x02, 0x00, 0x01, 0x00, 0x00, 0x00, code.len() as u8]);
    bytes.extend_from_slice(code);
    bytes.extend_from_slice(&[0x00, 0x00, 0x00, 0x00]);
    bytes
}

fn class_with(methods: &[Vec<u8>]) -> Vec<u8> {
    let mut bytes = pool_bytes();
    bytes.extend_from_slice(&[0x00, 0x21, 0x00, 0x02, 0x00, 0x03, 0x00, 0x00, 0x00, 0x00]);
    bytes.extend_from_slice(&[0x00, methods.len() as u8]);
    for method in methods {
        bytes.extend_from_slice(method);
    }
    bytes.extend_from_slice(&[0x00, 0x00]);
    bytes
}

fn class_of(init: &[u8], main: &[u8]) -> Vec<u8> {
    class_with(&[coded_method(4, init), coded_method(8, main)])
}

fn run_bytes(bytes: Vec<u8>) -> Result<(), DecodeError> {
    let name = String::from("Simple");
    let class = Class::new(&name, bytes);
    let file = class.parse().unwrap();
    run(&file)
}

fn run_main(code: &[u8]) -> Result<(), DecodeError> {
    run_bytes(class_of(&[0xb1], code))
}

fn empty_class() -> ClassFile<'static> {
    ClassFile {
        minor_version: 0,
        major_version: 52,
        constant_pool_count: 1,
        constant_pool: HashMap::new(),
        access_flags: 0,
        this_class: 0,
        super_class: 0,
        methods: vec![],
        attributes: vec![],
    }
}

fn small_pool() -> HashMap<u16, ConstantPoolEntry<'static>> {
    let mut pool = HashMap::new();
    pool.insert(1, ConstantPoolEntry::MethodRef(MethodRefConstant { class_idx: 3, name_and_type_idx: 10 }));
    pool.insert(3, ConstantPoolEntry::Class(ClassConstant { name_idx: 12 }));
    pool.insert(4, ConstantPoolEntry::Utf8(Utf8Constant { utf8_str: "<init>" }));
    pool.insert(5, ConstantPoolEntry::Utf8(Utf8Constant { utf8_str: "()V" }));
    pool.insert(10, ConstantPoolEntry::NameAndType(NameAndTypeConstant { name_idx: 4, descriptor_idx: 5 }));
    pool.insert(12, ConstantPoolEntry::Utf8(Utf8Constant { utf8_str: "java/lang/Object" }));
    pool.insert(0x0102, ConstantPoolEntry::FieldRef(FieldRefConstant { class_idx: 3, name_and_type_idx: 10 }));
    pool
}

#[test]
fn default_constructor_and_empty_main_return_with_empty_stacks() {
    let name = String::from("Simple");
    let class = Class::new(&name, class_of(&[0x2a, 0xb7, 0x00, 0x01, 0xb1], &[0xb1]));
    let file = class.parse().unwrap();
    assert_eq!(run(&file), Ok(()));
    let object = Object { class: &file };
    let init = run_method(&object, "<init>").unwrap();
    assert!(init.operand_stack.is_empty());
    assert_eq!(init.program_counter, 4);
    assert_eq!(init.local_variables, vec![Operand::Ref(&object)]);
    let main = run_method(&object, "main").unwrap();
    assert!(main.operand_stack.is_empty());
    assert_eq!(main.program_counter, 0);
    assert_eq!(main.local_variables, vec![Operand::Ref(&object)]);
}

#[test]
fn every_other_opcode_is_reported_by_value() {
    let mut byte: u16 = 0;
    while byte < 256 {
        let opcode = byte as u8;
        if ![0x2au8, 0x06, 0xb2, 0xb7, 0xb1].contains(&opcode) {
            assert_eq!(run_main(&[opcode]), Err(DecodeError::UnsupportedOpcode(opcode)));
            assert_eq!(run_main(&[0x2a, opcode, 0xb1]), Err(DecodeError::UnsupportedOpcode(opcode)));
            assert_eq!(
                run_bytes(class_of(&[opcode, 0xb1], &[0xb1])),
                Err(DecodeError::UnsupportedOpcode(opcode))
            );
        }
        byte += 1;
    }
}

#[test]
fn a_byte_behind_a_return_is_never_fetched() {
    assert_eq!(run_main(&[0xb1, 0x00]), Ok(()));
    assert_eq!(run_main(&[0xb1, 0xff, 0xff]), Ok(()));
}

#[test]
fn operand_bytes_are_not_opcodes() {
    assert_eq!(run_main(&[0xb2, 0x00, 0x0f, 0xb1]), Ok(()));
}

#[test]
fn a_class_without_main_fails_before_anything_runs() {
    let expected = Err(DecodeError::MissingMethod(String::from("main")));
    assert_eq!(run_bytes(class_with(&[coded_method(4, &[0x00])])), expected);
    assert_eq!(run_bytes(class_with(&[])), expected);
    assert_eq!(run(&empty_class()), expected);
}

#[test]
fn the_name_of_main_is_taken_literally() {
    let expected = Err(DecodeError::MissingMethod(String::from("main")));
    assert_eq!(run_bytes(class_with(&[coded_method(4, &[0xb1]), coded_method(11, &[0xb1])])), expected);
}

#[test]
fn a_class_with_main_but_without_constructor_misses_the_constructor() {
    assert_eq!(
        run_bytes(class_with(&[coded_method(8, &[0xb1])])),
        Err(DecodeError::MissingMethod(String::from("<init>")))
    );
}

#[test]
fn the_constructor_runs_before_main() {
    assert_eq!(
        run_bytes(class_of(&[0x01], &[0x02])),
        Err(DecodeError::UnsupportedOpcode(0x01))
    );
    assert_eq!(
        run_bytes(class_of(&[0xb1], &[0x02])),
        Err(DecodeError::UnsupportedOpcode(0x02))
    );
}

#[test]
fn run_method_reports_the_missing_method_by_name() {
    let file = empty_class();
    let object = Object { class: &file };
    assert_eq!(
        run_method(&object, "start"),
        Err(DecodeError::MissingMethod(String::from("start")))
    );
}

#[test]
fn a_method_without_code_cannot_run() {
    let bare = vec![0x04u8, 0x01, 0x00, 0x08, 0x00, 0x05, 0x00, 0x00];
    assert_eq!(
        run_bytes(class_with(&[coded_method(4, &[0xb1]), bare])),
        Err(DecodeError::MissingCode)
    );
}

#[test]
fn code_that_runs_off_its_end_leaves_the_frame() {
    let name = String::from("Simple");
    let class = Class::new(&name, class_of(&[0xb1], &[0x06, 0x2a]));
    let file = class.parse().unwrap();
    let object = Object { class: &file };
    let frame = run_method(&object, "main").unwrap();
    assert_eq!(frame.program_counter, 2);
    assert_eq!(frame.operand_stack, vec![Operand::Int(3), Operand::Ref(&object)]);
    assert_eq!(run_main(&[]), Ok(()));
}

#[test]
fn iconst_3_pushes_three_and_advances_by_one() {
    let file = empty_class();
    let object = Object { class: &file };
    let mut frame = Frame {
        local_variables: vec![Operand::Ref(&object)],
        operand_stack: vec![Operand::Int(7)],
        program_counter: 5,
    };
    iconst_3(&mut frame);
    assert_eq!(frame.operand_stack, vec![Operand::Int(7), Operand::Int(3)]);
    assert_eq!(frame.program_counter, 6);
    assert_eq!(frame.local_variables, vec![Operand::Ref(&object)]);
}

#[test]
fn aload_0_pushes_the_receiver_and_advances_by_one() {
    let file = empty_class();
    let object = Object { class: &file };
    let mut frame = Frame {
        local_variables: vec![Operand::Ref(&object), Operand::Int(9)],
        operand_stack: vec![],
        program_counter: 0,
    };
    aload_0(&mut frame);
    assert_eq!(frame.operand_stack, vec![Operand::Ref(&object)]);
    assert_eq!(frame.program_counter, 1);
    assert_eq!(frame.local_variables, vec![Operand::Ref(&object), Operand::Int(9)]);
}

#[test]
fn invokespecial_pops_the_receiver_and_advances_by_three() {
    let file = empty_class();
    let object = Object { class: &file };
    let pool = small_pool();
    let code = [0x00u8, 0xb7, 0x00, 0x01, 0xb1];
    let mut frame = Frame {
        local_variables: vec![Operand::Ref(&object)],
        operand_stack: vec![Operand::Int(3), Operand::Ref(&object)],
        program_counter: 1,
    };
    assert_eq!(invokespecial(&mut frame, &code, &pool), Ok(()));
    assert_eq!(frame.operand_stack, vec![Operand::Int(3)]);
    assert_eq!(frame.program_counter, 4);
}

#[test]
fn invokespecial_needs_a_reference_on_top() {
    let file = empty_class();
    let object = Object { class: &file };
    let pool = small_pool();
    let code = [0xb7u8, 0x00, 0x01];
    let mut empty = Frame { local_variables: vec![Operand::Ref(&object)], operand_stack: vec![], program_counter: 0 };
    assert_eq!(invokespecial(&mut empty, &code, &pool), Err(DecodeError::ExpectedReference));
    assert_eq!(empty.program_counter, 0);
    let mut integer = Frame {
        local_variables: vec![Operand::Ref(&object)],
        operand_stack: vec![Operand::Ref(&object), Operand::Int(3)],
        program_counter: 0,
    };
    assert_eq!(invokespecial(&mut integer, &code, &pool), Err(DecodeError::ExpectedReference));
    assert_eq!(integer.operand_stack.len(), 2);
    assert_eq!(run_main(&[0xb7, 0x00, 0x01, 0xb1]), Err(DecodeError::ExpectedReference));
    assert_eq!(run_main(&[0x06, 0xb7, 0x00, 0x01, 0xb1]), Err(DecodeError::ExpectedReference));
}

#[test]
fn invokespecial_checks_the_stack_before_its_operands() {
    assert_eq!(run_main(&[0xb7]), Err(DecodeError::ExpectedReference));
    assert_eq!(run_main(&[0x2a, 0xb7]), Err(DecodeError::Truncated));
    assert_eq!(run_main(&[0x2a, 0xb7, 0x00]), Err(DecodeError::Truncated));
}

#[test]
fn invokespecial_of_anything_but_the_root_constructor_is_refused() {
    assert_eq!(
        run_main(&[0x2a, 0xb7, 0x00, 0x15, 0xb1]),
        Err(DecodeError::UnsupportedDynamicDispatch)
    );
    let file = empty_class();
    let object = Object { class: &file };
    let code = [0xb7u8, 0x00, 0x01];
    for (index, text) in [(12u16, "java/lang/object"), (4, "<clinit>"), (5, "(I)V"), (5, "()I")] {
        let mut pool = small_pool();
        pool.insert(index, ConstantPoolEntry::Utf8(Utf8Constant { utf8_str: text }));
        let mut frame = Frame {
            local_variables: vec![Operand::Ref(&object)],
            operand_stack: vec![Operand::Ref(&object)],
            program_counter: 0,
        };
        assert_eq!(
            invokespecial(&mut frame, &code, &pool),
            Err(DecodeError::UnsupportedDynamicDispatch)
        );
        assert_eq!(frame.operand_stack.len(), 1);
        assert_eq!(frame.program_counter, 0);
    }
}

#[test]
fn invokespecial_fails_as_resolution_does() {
    assert_eq!(
        run_main(&[0x2a, 0xb7, 0x00, 0x00, 0xb1]),
        Err(DecodeError::MissingConstantPoolEntry)
    );
    assert_eq!(
        run_main(&[0x2a, 0xb7, 0x00, 0x0f, 0xb1]),
        Err(DecodeError::MissingConstantPoolEntry)
    );
    assert_eq!(
        run_main(&[0x2a, 0xb7, 0x01, 0x01, 0xb1]),
        Err(DecodeError::MissingConstantPoolEntry)
    );
    let file = empty_class();
    let object = Object { class: &file };
    let mut pool = small_pool();
    pool.remove(&5);
    let mut frame = Frame {
        local_variables: vec![Operand::Ref(&object)],
        operand_stack: vec![Operand::Ref(&object)],
        program_counter: 0,
    };
    assert_eq!(invokespecial(&mut frame, &[0xb7, 0x00, 0x01], &pool), Err(DecodeError::ExpectedUtf8));
}

#[test]
fn getstatic_resolves_pushes_nothing_and_advances_by_three() {
    let file = empty_class();
    let object = Object { class: &file };
    let pool = small_pool();
    let code = [0xb2u8, 0x01, 0x02, 0xb1];
    let mut frame = Frame {
        local_variables: vec![Operand::Ref(&object)],
        operand_stack: vec![Operand::Int(3)],
        program_counter: 0,
    };
    assert_eq!(
        getstatic(&mut frame, &code, &pool),
        Ok(ResolvedMember { class_name: "java/lang/Object", name: "<init>", descriptor: "()V" })
    );
    assert_eq!(frame.operand_stack, vec![Operand::Int(3)]);
    assert_eq!(frame.program_counter, 3);
}

#[test]
fn getstatic_joins_its_index_high_byte_first() {
    let file = empty_class();
    let object = Object { class: &file };
    let pool = small_pool();
    let mut frame = Frame { local_variables: vec![Operand::Ref(&object)], operand_stack: vec![], program_counter: 0 };
    assert_eq!(
        getstatic(&mut frame, &[0xb2, 0x02, 0x01], &pool),
        Err(DecodeError::MissingConstantPoolEntry)
    );
    assert_eq!(
        getstatic(&mut frame, &[0xb2, 0x00, 0x03], &pool),
        Err(DecodeError::MissingConstantPoolEntry)
    );
    assert_eq!(frame.program_counter, 0);
}

#[test]
fn getstatic_in_a_method() {
    let name = String::from("Simple");
    let class = Class::new(&name, class_of(&[0xb1], &[0xb2, 0x00, 0x0f, 0x06, 0xb1]));
    let file = class.parse().unwrap();
    let object = Object { class: &file };
    let frame = run_method(&object, "main").unwrap();
    assert_eq!(frame.operand_stack, vec![Operand::Int(3)]);
    assert_eq!(frame.program_counter, 4);
    assert_eq!(run_main(&[0xb2, 0x00, 0x01, 0xb1]), Err(DecodeError::MissingConstantPoolEntry));
    assert_eq!(run_main(&[0xb2, 0x00]), Err(DecodeError::Truncated));
    assert_eq!(run_main(&[0xb2]), Err(DecodeError::Truncated));
}

#[test]
fn step_dispatches_on_the_opcode() {
    let file = empty_class();
    let object = Object { class: &file };
    let pool = small_pool();
    let code = [0x2au8, 0x06, 0xb2, 0x01, 0x02, 0xb1, 0xca];
    let mut frame = Frame { local_variables: vec![Operand::Ref(&object)], operand_stack: vec![], program_counter: 0 };
    assert_eq!(frame.step(&code, &pool), Ok(Control::Continue));
    assert_eq!(frame.program_counter, 1);
    assert_eq!(frame.step(&code, &pool), Ok(Control::Continue));
    assert_eq!(frame.program_counter, 2);
    assert_eq!(frame.step(&code, &pool), Ok(Control::Continue));
    assert_eq!(frame.program_counter, 5);
    assert_eq!(frame.operand_stack, vec![Operand::Ref(&object), Operand::Int(3)]);
    assert_eq!(frame.step(&code, &pool), Ok(Control::Return));
    assert_eq!(frame.program_counter, 5);
    frame.program_counter = 6;
    assert_eq!(frame.step(&code, &pool), Err(DecodeError::UnsupportedOpcode(0xca)));
    assert_eq!(frame.program_counter, 6);
    assert_eq!(frame.operand_stack.len(), 2);
}

#[test]
fn a_new_frame_holds_the_receiver_and_nothing_else() {
    let name = String::from("Simple");
    let class = Class::new(&name, class_of(&[0xb1], &[0xb1]));
    let file = class.parse().unwrap();
    let object = Object { class: &file };
    let code = file.method("main").unwrap().code().unwrap();
    let frame = Frame::new(&object, code);
    assert_eq!(frame.local_variables, vec![Operand::Ref(&object)]);
    assert!(frame.operand_stack.is_empty());
    assert_eq!(frame.program_counter, 0);
}

#[test]
fn test_simple_addition() {
    let name = String::from("test/SimpleAddition");
    let class = Class::new(&name, class_of(&[0x2a, 0xb7, 0x00, 0x01, 0xb1], &[0x06, 0xb1]));
    let file = class.parse().unwrap();
    assert_eq!(run(&file), Ok(()));
}

use notepad::ApplyError;
use notepad::Diff;
use notepad::MessageBuf;
use notepad::Notepad;
use notepad::Operation;

fn pad(text: &str) -> Notepad {
    Notepad { text: text.chars().collect() }
}

fn text_of(pad: &Notepad) -> String {
    pad.text.iter().collect()
}

#[test]
fn del_diff() {
    let mut notepad = pad("1: This is my notepad\n2: The next line");

    let diff = Diff { opcode: Operation::Del, operand: None, index: 2 };

    notepad.apply_diff(&diff).unwrap();

    assert_eq!(text_of(&notepad), "1:This is my notepad\n2: The next line")
}

#[test]
fn ins_diff() {
    let mut notepad = pad("1: This is my notepad\n2: The next line");

    let diff = Diff { opcode: Operation::Ins, operand: Some('\n'), index: 2 };

    notepad.apply_diff(&diff).unwrap();

    assert_eq!(text_of(&notepad), "1:\n This is my notepad\n2: The next line")
}

#[test]
fn rep_diff() {
    let mut notepad = pad("1: This is my notepad\n2: The next line");

    let diff = Diff { opcode: Operation::Rep, operand: Some('3'), index: 22 };

    notepad.apply_diff(&diff).unwrap();

    assert_eq!(text_of(&notepad), "1: This is my notepad\n3: The next line");
}

#[test]
fn sequential_application() {
    let mut notepad = pad("hello");
    let batch = MessageBuf {
        messages: vec![
            Diff { opcode: Operation::Ins, operand: Some('H'), index: 0 },
            Diff { opcode: Operation::Del, operand: None, index: 1 },
        ],
    };
    notepad.apply_message_buf(&batch).unwrap();
    assert_eq!(text_of(&notepad), "Hello");
}

#[test]
fn insert_at_end_is_legal() {
    let mut notepad = pad("ab");
    let diff = Diff { opcode: Operation::Ins, operand: Some('c'), index: 2 };
    notepad.apply_diff(&diff).unwrap();
    assert_eq!(text_of(&notepad), "abc");
}

#[test]
fn delete_out_of_range_leaves_text() {
    let mut notepad = pad("abc");
    let diff = Diff { opcode: Operation::Del, operand: None, index: 5 };
    assert_eq!(notepad.apply_diff(&diff), Err(ApplyError::IndexOutOfRange));
    assert_eq!(text_of(&notepad), "abc");
}

#[test]
fn insert_without_operand_fails() {
    let mut notepad = pad("abc");
    let diff = Diff { opcode: Operation::Ins, operand: None, index: 0 };
    assert_eq!(notepad.apply_diff(&diff), Err(ApplyError::MissingOperand));
    assert_eq!(text_of(&notepad), "abc");

    let rep = Diff { opcode: Operation::Rep, operand: None, index: 0 };
    assert_eq!(notepad.apply_diff(&rep), Err(ApplyError::MissingOperand));
    assert_eq!(text_of(&notepad), "abc");
}

#[test]
fn batch_keeps_partial_effect() {
    let mut notepad = pad("ab");
    let batch = MessageBuf {
        messages: vec![
            Diff { opcode: Operation::Ins, operand: Some('x'), index: 0 },
            Diff { opcode: Operation::Del, operand: None, index: 99 },
        ],
    };
    assert_eq!(notepad.apply_message_buf(&batch), Err(ApplyError::IndexOutOfRange));
    assert_eq!(text_of(&notepad), "xab");
}

#[test]
fn insert_then_delete_restores_text() {
    let mut notepad = pad("notepad");
    let ins = Diff { opcode: Operation::Ins, operand: Some('q'), index: 3 };
    let del = Diff { opcode: Operation::Del, operand: None, index: 3 };
    notepad.apply_diff(&ins).unwrap();
    notepad.apply_diff(&del).unwrap();
    assert_eq!(text_of(&notepad), "notepad");
}

#[test]
fn replace_equals_delete_then_insert() {
    let mut replaced = pad("abc");
    let rep = Diff { opcode: Operation::Rep, operand: Some('z'), index: 1 };
    replaced.apply_diff(&rep).unwrap();

    let mut stepped = pad("abc");
    let del = Diff { opcode: Operation::Del, operand: None, index: 1 };
    let ins = Diff { opcode: Operation::Ins, operand: Some('z'), index: 1 };
    stepped.apply_diff(&del).unwrap();
    stepped.apply_diff(&ins).unwrap();

    assert_eq!(text_of(&replaced), text_of(&stepped));
    assert_eq!(text_of(&replaced), "azc");
}

#[test]
fn default_notepad_is_empty() {
    let notepad = Notepad::default();
    assert_eq!(text_of(&notepad), "");
}

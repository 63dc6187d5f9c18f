use lox::operators::NumberOp;
use lox::vm::chunk::{Chunk, OpCode};
use lox::vm::virtualmachine::{stack_trace, Action, InterpretResult, Value, VirtualMachine};

fn show(value: &Value) -> String {
    match value {
        Value::Number(bits) => format!("{}", f64::from_bits(*bits)),
        Value::Bool(b) => format!("{}", b),
        Value::Nil => "nil".to_string(),
    }
}

// Runs the machine to the end of its chunk, with the trace of the stack
// and of each instruction before it is carried out. The host's part is
// the arithmetic and the reading and printing of numbers.
fn run(vm: &mut VirtualMachine) -> Result<String, String> {
    let mut output = String::new();
    loop {
        if vm.fetches() {
            let slots: Vec<String> = vm.stack.iter().map(show).collect();
            output.push_str(&stack_trace(&slots));
            output.push_str(&vm.chunk.disassemble_instruction(vm.ip).0);
        }
        match vm.step() {
            Action::Continue => {}
            Action::Arithmetic(op, a, b) => {
                let x = f64::from_bits(a);
                let y = f64::from_bits(b);
                let z = match op {
                    NumberOp::Add => x + y,
                    NumberOp::Subtract => x - y,
                    NumberOp::Multiply => x * y,
                    NumberOp::Divide => x / y,
                };
                vm.resume(z.to_bits());
            }
            Action::Parse(text) => vm.resume(text.parse::<f64>().unwrap().to_bits()),
            Action::Print(value) => {
                output.push_str(&show(&value));
                output.push('\n');
            }
            Action::Done(InterpretResult::Completed) => return Ok(output),
            Action::Done(_) => return Err("not completed".to_string()),
            Action::Failed(message) => return Err(message),
        }
    }
}

#[test]
fn test_disassemble_chunk_return() {
    let mut chunk = Chunk::new();
    chunk.write_op_code(OpCode::Return, 1);
    let result = chunk.disassemble("test chunk");
    assert_eq!(result, "== test chunk ==\n0000 0001 OP_RETURN\n");
}
#[test]
fn test_disassemble_chunk_constant() {
    let mut chunk = Chunk::new();
    let constant_index = chunk.add_constant("1.2".to_string());
    chunk.write_op_code(OpCode::Constant, 1);
    chunk.write(constant_index as u8, 1);
    let result = chunk.disassemble("test chunk");
    assert_eq!(result, "== test chunk ==\n0000 0001 OP_CONSTANT 0000 1.2\n");
}

#[test]
fn test_return_op() {
    let mut chunk = Chunk::new();
    chunk.write_op_code(OpCode::Return, 1);

    let mut vm = VirtualMachine::new();
    vm.chunk = chunk;
    let result = run(&mut vm).unwrap();
    assert_eq!(result, "          \n0000 0001 OP_RETURN\n");
}
#[test]
fn test_constant_op() {
    let mut chunk = Chunk::new();
    let constant_index = chunk.add_constant("1.2".to_string());
    chunk.write_op_code(OpCode::Constant, 1);
    chunk.write(constant_index as u8, 1);

    let mut vm = VirtualMachine::new();
    vm.chunk = chunk;
    let result = run(&mut vm).unwrap();
    assert_eq!(result, "          \n0000 0001 OP_CONSTANT 0000 1.2\n");
}
#[test]
fn test_negate_op() {
    let mut chunk = Chunk::new();
    let constant_index = chunk.add_constant("1.2".to_string());
    chunk.write_op_code(OpCode::Constant, 1);
    chunk.write(constant_index as u8, 1);
    chunk.write_op_code(OpCode::Negate, 2);
    chunk.write_op_code(OpCode::Return, 3);

    let mut vm = VirtualMachine::new();
    vm.chunk = chunk;
    let result = run(&mut vm).unwrap();
    assert_eq!(
        result,
        "          \n0000 0001 OP_CONSTANT 0000 1.2\
            \n          [ 1.2 ]\n0002 0002 OP_NEGATE\
            \n          [ -1.2 ]\n0003 0003 OP_RETURN\n-1.2\n"
    );
}
#[test]
fn test_add_op() {
    let mut chunk = Chunk::new();
    let constant_index = chunk.add_constant("1.2".to_string());
    chunk.write_op_code(OpCode::Constant, 1);
    chunk.write(constant_index as u8, 1);
    chunk.write_op_code(OpCode::Constant, 1);
    chunk.write(constant_index as u8, 1);
    chunk.write_op_code(OpCode::Add, 1);
    chunk.write_op_code(OpCode::Return, 2);

    let mut vm = VirtualMachine::new();
    vm.chunk = chunk;
    let result = run(&mut vm).unwrap();
    assert_eq!(
        result,
        "          \
            \n0000 0001 OP_CONSTANT 0000 1.2\
            \n          [ 1.2 ]\
            \n0002    | OP_CONSTANT 0000 1.2\
            \n          [ 1.2 ][ 1.2 ]\
            \n0004    | OP_ADD\
            \n          [ 2.4 ]\
            \n0005 0002 OP_RETURN\
            \n2.4\n"
    );
}

#[test]
fn test_arithmatic() {
    let mut chunk = Chunk::new();

    //  -( (1.2 + 3.4) / 5.6 )
    let constant_a = chunk.add_constant("1.2".to_string());
    chunk.write_op_code(OpCode::Constant, 123);
    chunk.write(constant_a as u8, 123);

    let constant_b = chunk.add_constant("3.4".to_string());
    chunk.write_op_code(OpCode::Constant, 123);
    chunk.write(constant_b as u8, 123);

    chunk.write_op_code(OpCode::Add, 123);

    let constant_c = chunk.add_constant("5.6".to_string());
    chunk.write_op_code(OpCode::Constant, 123);
    chunk.write(constant_c as u8, 123);

    chunk.write_op_code(OpCode::Divide, 123);
    chunk.write_op_code(OpCode::Negate, 123);
    chunk.write_op_code(OpCode::Return, 123);

    let mut vm = VirtualMachine::new();
    vm.chunk = chunk;
    let result = run(&mut vm).unwrap();
    assert_eq!(
        result,
        "          \
            \n0000 0123 OP_CONSTANT 0000 1.2\
            \n          [ 1.2 ]\
            \n0002    | OP_CONSTANT 0001 3.4\
            \n          [ 1.2 ][ 3.4 ]\
            \n0004    | OP_ADD\
            \n          [ 4.6 ]\
            \n0005    | OP_CONSTANT 0002 5.6\
            \n          [ 4.6 ][ 5.6 ]\
            \n0007    | OP_DIVIDE\
            \n          [ 0.8214285714285714 ]\
            \n0008    | OP_NEGATE\
            \n          [ -0.8214285714285714 ]\
            \n0009    | OP_RETURN\
            \n-0.8214285714285714\n"
    );
}

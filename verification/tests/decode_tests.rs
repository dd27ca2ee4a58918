use chip8::decode::decode;
use chip8::instruction::Instruction;
use chip8::registers::Register;

#[test]
fn decode_load_immediate() {
    let instruction = decode(0x6A05).unwrap();
    assert_eq!(
        instruction,
        Instruction::LoadImmediate {
            vx: Register::VA,
            value: 5,
        }
    );
}
#[test]
fn decode_jump() {
    let instruction = decode(0x1234).unwrap();
    assert_eq!(
        instruction,
        Instruction::JumpAddr { 
            address: 0x234 
        }
    );
}
#[test]
fn decode_add_immedaite() {
    let instruction = decode(0x7A55).unwrap();
    assert_eq!(
        Instruction::AddImmediate { 
            vx: Register::VA, 
            value: 0x55
        },
        instruction
    )
}
#[test]
fn decode_add_vx_vy() {
    let instruction = decode(0x8AB4).unwrap();
    assert_eq!(
        Instruction::AddVxVy { 
            vx: Register::VA, 
            vy: Register::VB 
        },
        instruction
    )
}
#[test]
fn decode_set_vx_vy() {
    let instruction = decode(0x8AB0).unwrap();
    assert_eq!(
        Instruction::SetVxVy {
            vx: Register::VA,
            vy: Register::VB,
        },
        instruction
    );
}
#[test]
fn decode_or_vx_vy() {
    let instruction = decode(0x8AB1).unwrap();
    assert_eq!(
        Instruction::OrVxVy { 
            vx: Register::VA,
            vy: Register::VB,
        },
        instruction
    );
}
#[test]
fn decode_shl_vx() {
    let instruction = decode(0x8ABE).unwrap();

    assert_eq!(
        Instruction::ShlVx {
            vx: Register::VA,
        },
        instruction
    );
}

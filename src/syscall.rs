use vstd::prelude::*;
use crate::helper::{JopcallError, find_in, first_match, lemma_first_match_found, lemma_first_match_skip};

verus! {

/// Number of bytes of a stub that are searched for its signatures.
pub const STUB_WINDOW: usize = 36;

/// Longest gadget chain that a dispatch can lay out on the stack.
pub const MAX_GADGETS: usize = 5;

/// A resolved system call: its service number, the address of its `syscall`
/// instruction, and whether other code precedes its canonical prologue.
#[derive(Clone, Copy, Debug, PartialEq, Eq, Structural)]
pub struct Syscall {
    pub ssn: u16,
    pub address: usize,
    pub hooked: bool,
}

/// The gadget and argument counts of one dispatch.
#[derive(Clone, Copy, Debug, PartialEq, Eq, Structural)]
pub struct SyscallCount(pub u16, pub u16);

impl SyscallCount {
    /// The counts for a chain of `gadget_count` gadgets and `arg_count`
    /// arguments; a chain longer than a dispatch can lay out is refused.
    pub fn checked(gadget_count: usize, arg_count: u16) -> (r: Result<SyscallCount, JopcallError>)
        ensures
            gadget_count <= MAX_GADGETS ==> r == Ok::<SyscallCount, JopcallError>(
                SyscallCount(gadget_count as u16, arg_count),
            ),
            gadget_count > MAX_GADGETS ==> r == Err::<SyscallCount, JopcallError>(
                JopcallError::OverMaxGadgets,
            ),
    {
        if gadget_count > MAX_GADGETS {
            Err(JopcallError::OverMaxGadgets)
        } else {
            Ok(SyscallCount(gadget_count as u16, arg_count))
        }
    }
}

/// The canonical prologue of an unhooked stub: `mov r10, rcx; mov eax, imm32`.
pub open spec fn stub_prologue() -> Seq<u8> {
    seq![0x4Cu8, 0x8Bu8, 0xD1u8, 0xB8u8]
}

/// The `syscall` instruction.
pub open spec fn syscall_opcode() -> Seq<u8> {
    seq![0x0Fu8, 0x05u8]
}

/// The part of a stub that is searched: its first bytes, up to the window size.
pub open spec fn stub_window(stub: Seq<u8>) -> Seq<u8> {
    if stub.len() < STUB_WINDOW {
        stub
    } else {
        stub.subrange(0, STUB_WINDOW as int)
    }
}

/// What the analysis of the bytes `stub`, found at `address`, yields.
pub open spec fn analyze_stub(stub: Seq<u8>, address: usize) -> Result<Syscall, JopcallError> {
    let w = stub_window(stub);
    match first_match(w, stub_prologue()) {
        None => Err(JopcallError::NoByteMatch),
        Some(p) => {
            let s = p + 4;
            if s + 4 > stub.len() {
                Err(JopcallError::InvalidAddress)
            } else if stub[s + 2] != 0 && stub[s + 3] != 0 {
                Err(JopcallError::InvalidSSN)
            } else {
                match first_match(w, syscall_opcode()) {
                    None => Err(JopcallError::NoByteMatch),
                    Some(q) => Ok(
                        Syscall {
                            ssn: (stub[s] as int + stub[s + 1] as int * 0x100) as u16,
                            address: (address + q) as usize,
                            hooked: p > 0,
                        },
                    ),
                }
            }
        },
    }
}

/// A stub whose analysis succeeds is reported hooked exactly when its
/// canonical prologue does not stand at offset zero.
pub proof fn lemma_hooked_iff_prologue_moved(stub: Seq<u8>, address: usize)
    requires
        analyze_stub(stub, address) is Ok,
    ensures
        first_match(stub_window(stub), stub_prologue()) is Some,
        analyze_stub(stub, address)->Ok_0.hooked <==> first_match(
            stub_window(stub),
            stub_prologue(),
        )->Some_0 != 0,
{
    lemma_first_match_found(stub_window(stub), stub_prologue(), 0);
}

fn find_first(pattern: &[u8], stub: &[u8], hi: usize) -> (r: Option<usize>)
    requires
        pattern@.len() > 0,
        hi <= stub@.len(),
    ensures
        r matches Some(i) ==> first_match(stub@.subrange(0, hi as int), pattern@) == Some(i as int)
            && i < hi,
        r is None ==> first_match(stub@.subrange(0, hi as int), pattern@) is None,
{
    let r = find_in(pattern, stub, 0, hi, 0);
    let ghost w = stub@.subrange(0, hi as int);
    match r {
        Some(i) => {
            proof {
                lemma_first_match_skip(w, pattern@, 0, i as int);
            }
        },
        None => {
            proof {
                lemma_first_match_skip(w, pattern@, 0, w.len() as int);
            }
        },
    }
    r
}

/// Analyses the bytes `stub` of an exported function found at
/// `function_address`: finds the canonical prologue in the window (absent:
/// `NoByteMatch`), reads the service number after it (bytes past the stub:
/// `InvalidAddress`; both high bytes set: `InvalidSSN`), and finds the
/// `syscall` instruction in the window (absent: `NoByteMatch`). The stub is
/// hooked when the prologue does not stand at its start.
pub fn lookup_syscall(stub: &[u8], function_address: usize) -> (r: Result<Syscall, JopcallError>)
    requires
        function_address + stub@.len() <= usize::MAX,
    ensures
        r == analyze_stub(stub@, function_address),
{
    let hi: usize = if stub.len() < STUB_WINDOW {
        stub.len()
    } else {
        STUB_WINDOW
    };
    proof {
        assert(stub@.subrange(0, stub@.len() as int) =~= stub@);
    }
    let prologue: [u8; 4] = [0x4C, 0x8B, 0xD1, 0xB8];
    assert(prologue@ =~= stub_prologue());
    let p = match find_first(&prologue, stub, hi) {
        Some(p) => p,
        None => return Err(JopcallError::NoByteMatch),
    };
    let hooked = p > 0;
    let s = p + 4;
    if s > stub.len() || stub.len() - s < 4 {
        return Err(JopcallError::InvalidAddress);
    }
    if stub[s + 2] != 0 && stub[s + 3] != 0 {
        return Err(JopcallError::InvalidSSN);
    }
    let ssn: u16 = stub[s] as u16 + stub[s + 1] as u16 * 0x100;
    let opcode: [u8; 2] = [0x0F, 0x05];
    assert(opcode@ =~= syscall_opcode());
    let q = match find_first(&opcode, stub, hi) {
        Some(q) => q,
        None => return Err(JopcallError::NoByteMatch),
    };
    Ok(Syscall { ssn, address: function_address + q, hooked })
}

} // verus!

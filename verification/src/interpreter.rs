//! The interpreter: a frame, five instructions, and the loop that runs a
//! method.
//!
//! A frame goes through fetch, decode and execute until an instruction
//! returns or fails. It starts with the program counter at 0, the receiver
//! in local slot 0 and an empty operand stack. Each instruction consumes its
//! own operand bytes and moves the program counter by its whole width: one
//! byte, or three where two operand bytes follow the opcode. A byte that is
//! no implemented opcode stops the frame with
//! [`DecodeError::UnsupportedOpcode`]: nothing is ever executed that is not
//! described here.
//!
//! The limits `max_stack` and `max_locals` of the code only size the two
//! arrays when the frame is made. They are not enforced.

use crate::attributes::CodeAttribute;
use crate::classes::{spec_method_named, ClassFile, ClassFileView};
use crate::constants::{pool_view, ConstantPoolEntry, ConstantView};
use crate::error::{reports, DecodeError, DecodeErrorView};
use crate::methods::spec_code_of;
use crate::reader::{in_bounds, join_u16, u16_at};
use crate::resolution::{
    resolve_field_ref, resolve_method_ref, spec_resolve_field_ref, spec_resolve_method_ref,
    MemberView, ResolvedMember,
};
use crate::text::str_eq;
use std::collections::HashMap;
use vstd::prelude::*;

verus! {

/// Pushes the integer 3.
pub const ICONST_3: u8 = 0x06;

/// Pushes local slot 0, the receiver.
pub const ALOAD_0: u8 = 0x2a;

/// Ends the frame.
pub const RETURN: u8 = 0xb1;

/// Resolves a static field. Two operand bytes.
pub const GETSTATIC: u8 = 0xb2;

/// Calls a constructor on the reference it pops. Two operand bytes.
pub const INVOKESPECIAL: u8 = 0xb7;

/// The class whose constructor may be called.
pub const OBJECT_CLASS: &'static str = "java/lang/Object";

/// The name of a constructor.
pub const CONSTRUCTOR: &'static str = "<init>";

/// The descriptor of a method without parameters and without a result.
pub const NO_ARGS_VOID: &'static str = "()V";

/// The name of the method at which a class is entered.
pub const MAIN: &'static str = "main";

/// An instance of a class.
#[derive(Debug, PartialEq, Eq)]
pub struct Object<'a> {
    pub class: &'a ClassFile<'a>,
}

/// What a local slot or a place on the operand stack holds.
#[derive(Debug, Clone, Copy, PartialEq, Eq)]
pub enum Operand<'a> {
    Ref(&'a Object<'a>),
    Int(i32),
}

/// The state of one invocation. It is made when the method is entered and
/// dropped when it returns; no two invocations share one.
#[derive(Debug, PartialEq, Eq)]
pub struct Frame<'a> {
    pub local_variables: Vec<Operand<'a>>,
    pub operand_stack: Vec<Operand<'a>>,
    pub program_counter: usize,
}

/// The mathematical value of a [`Frame`]. The top of the stack is the last
/// element.
pub struct FrameView<'a> {
    pub locals: Seq<Operand<'a>>,
    pub stack: Seq<Operand<'a>>,
    pub pc: nat,
}

impl<'a> View for Frame<'a> {
    type V = FrameView<'a>;

    open spec fn view(&self) -> FrameView<'a> {
        FrameView {
            locals: self.local_variables@,
            stack: self.operand_stack@,
            pc: self.program_counter as nat,
        }
    }
}

/// What one instruction leads to.
pub enum Flow<'a> {
    /// The frame goes on, in this state.
    Next(FrameView<'a>),
    /// The frame has returned.
    Return,
}

/// What [`Frame::step`] reports of the instruction it executed.
#[derive(Debug, Clone, Copy, PartialEq, Eq)]
pub enum Control {
    Continue,
    Return,
}

/// The operand that refers to an object of `class`.
pub open spec fn receiver_of<'a>(class: &'a ClassFile<'a>) -> Operand<'a> {
    Operand::Ref(&Object { class })
}

/// The frame in which a method starts on `receiver`.
pub open spec fn initial_frame<'a>(receiver: Operand<'a>) -> FrameView<'a> {
    FrameView { locals: seq![receiver], stack: Seq::empty(), pc: 0 }
}

/// Local slot 0 is bound.
pub open spec fn frame_is_bound<'a>(frame: FrameView<'a>) -> bool {
    frame.locals.len() > 0
}

/// `opcode` is one of the five implemented instructions.
pub open spec fn is_supported(opcode: u8) -> bool {
    opcode == ALOAD_0 || opcode == ICONST_3 || opcode == GETSTATIC || opcode == INVOKESPECIAL
        || opcode == RETURN
}

/// The width of an instruction in bytes, operand bytes included.
pub open spec fn instruction_width(opcode: u8) -> nat {
    if opcode == GETSTATIC || opcode == INVOKESPECIAL {
        3
    } else {
        1
    }
}

/// `member` is the constructor of the root class, which does nothing.
pub open spec fn is_object_constructor(member: MemberView) -> bool {
    member.class_name == OBJECT_CLASS@ && member.name == CONSTRUCTOR@ && member.descriptor
        == NO_ARGS_VOID@
}

/// The stack after `aload_0`: local slot 0 on top.
pub open spec fn spec_aload_0<'a>(frame: FrameView<'a>) -> Seq<Operand<'a>> {
    frame.stack.push(frame.locals[0])
}

/// The stack after `iconst_3`: the integer 3 on top.
pub open spec fn spec_iconst_3<'a>(frame: FrameView<'a>) -> Seq<Operand<'a>> {
    frame.stack.push(Operand::Int(3))
}

/// The stack after `getstatic`. The two bytes behind the opcode index a
/// field reference, which must resolve. No field is stored anywhere, so no
/// value is pushed: the stack stays as it is.
pub open spec fn spec_getstatic<'a>(
    code: Seq<u8>,
    pool: Map<u16, ConstantView>,
    frame: FrameView<'a>,
) -> Result<Seq<Operand<'a>>, DecodeErrorView> {
    if !in_bounds(code, frame.pc as int + 1, 2) {
        Err(DecodeErrorView::Truncated)
    } else {
        match spec_resolve_field_ref(pool, u16_at(code, frame.pc as int + 1)) {
            Err(failure) => Err(failure),
            Ok(_) => Ok(frame.stack),
        }
    }
}

/// The stack after `invokespecial`. A reference must be on top; it is
/// popped. The two bytes behind the opcode index a method reference, which
/// must resolve to the constructor of the root class; any other target would
/// need another class to be loaded.
pub open spec fn spec_invokespecial<'a>(
    code: Seq<u8>,
    pool: Map<u16, ConstantView>,
    frame: FrameView<'a>,
) -> Result<Seq<Operand<'a>>, DecodeErrorView> {
    if frame.stack.len() == 0 || !(frame.stack.last() is Ref) {
        Err(DecodeErrorView::ExpectedReference)
    } else if !in_bounds(code, frame.pc as int + 1, 2) {
        Err(DecodeErrorView::Truncated)
    } else {
        match spec_resolve_method_ref(pool, u16_at(code, frame.pc as int + 1)) {
            Err(failure) => Err(failure),
            Ok(member) => if is_object_constructor(member) {
                Ok(frame.stack.drop_last())
            } else {
                Err(DecodeErrorView::UnsupportedDynamicDispatch)
            },
        }
    }
}

/// The instruction at the program counter, executed once. Where the
/// program counter has left the code, the frame has returned.
pub open spec fn spec_step<'a>(
    code: Seq<u8>,
    pool: Map<u16, ConstantView>,
    frame: FrameView<'a>,
) -> Result<Flow<'a>, DecodeErrorView> {
    if frame.pc >= code.len() {
        Ok(Flow::Return)
    } else {
        let opcode = code[frame.pc as int];
        let pc = frame.pc + instruction_width(opcode);
        if opcode == ICONST_3 {
            Ok(Flow::Next(FrameView { stack: spec_iconst_3(frame), pc, ..frame }))
        } else if opcode == ALOAD_0 {
            Ok(Flow::Next(FrameView { stack: spec_aload_0(frame), pc, ..frame }))
        } else if opcode == RETURN {
            Ok(Flow::Return)
        } else if opcode == GETSTATIC {
            match spec_getstatic(code, pool, frame) {
                Err(failure) => Err(failure),
                Ok(stack) => Ok(Flow::Next(FrameView { stack, pc, ..frame })),
            }
        } else if opcode == INVOKESPECIAL {
            match spec_invokespecial(code, pool, frame) {
                Err(failure) => Err(failure),
                Ok(stack) => Ok(Flow::Next(FrameView { stack, pc, ..frame })),
            }
        } else {
            Err(DecodeErrorView::UnsupportedOpcode(opcode))
        }
    }
}

/// The frame in which execution from `frame` on ends: at a `return`, or
/// where the program counter leaves the code.
pub open spec fn spec_execute<'a>(
    code: Seq<u8>,
    pool: Map<u16, ConstantView>,
    frame: FrameView<'a>,
) -> Result<FrameView<'a>, DecodeErrorView>
    decreases code.len() - frame.pc,
{
    match spec_step(code, pool, frame) {
        Err(failure) => Err(failure),
        Ok(Flow::Return) => Ok(frame),
        Ok(Flow::Next(next)) => spec_execute(code, pool, next),
    }
}

/// The frame in which the method `name` of `class` ends when it runs on
/// `receiver`.
pub open spec fn spec_run_method<'a>(
    class: ClassFileView,
    receiver: Operand<'a>,
    name: Seq<char>,
) -> Result<FrameView<'a>, DecodeErrorView> {
    match spec_method_named(class.methods, name) {
        None => Err(DecodeErrorView::MissingMethod(name)),
        Some(method) => match spec_code_of(method.attributes) {
            None => Err(DecodeErrorView::MissingCode),
            Some(code) => spec_execute(code.code, class.constant_pool, initial_frame(receiver)),
        },
    }
}

/// Running a class on `receiver`: the class must have a `main`; then its
/// `<init>` runs, then its `main`.
pub open spec fn spec_run<'a>(class: ClassFileView, receiver: Operand<'a>) -> Result<
    (),
    DecodeErrorView,
> {
    if spec_method_named(class.methods, MAIN@) is None {
        Err(DecodeErrorView::MissingMethod(MAIN@))
    } else {
        match spec_run_method(class, receiver, CONSTRUCTOR@) {
            Err(failure) => Err(failure),
            Ok(_) => match spec_run_method(class, receiver, MAIN@) {
                Err(failure) => Err(failure),
                Ok(_) => Ok(()),
            },
        }
    }
}

/// A byte that is no implemented opcode fails the frame that fetches it, and
/// the failure names that very byte. Only a fetched byte counts: one that
/// stands behind a `return`, or serves as an operand, is never looked at as
/// an opcode.
pub proof fn lemma_unsupported_opcode_fails<'a>(
    code: Seq<u8>,
    pool: Map<u16, ConstantView>,
    frame: FrameView<'a>,
)
    requires
        frame.pc < code.len(),
        !is_supported(code[frame.pc as int]),
    ensures
        spec_step(code, pool, frame) == Err::<Flow<'a>, DecodeErrorView>(
            DecodeErrorView::UnsupportedOpcode(code[frame.pc as int]),
        ),
        spec_execute(code, pool, frame) == Err::<FrameView<'a>, DecodeErrorView>(
            DecodeErrorView::UnsupportedOpcode(code[frame.pc as int]),
        ),
{
}

/// Where a frame fails over an opcode, the byte that the failure names is
/// no implemented opcode and stands in the code, at or behind the place
/// from which the frame went on.
pub proof fn lemma_reported_opcode_was_fetched<'a>(
    code: Seq<u8>,
    pool: Map<u16, ConstantView>,
    frame: FrameView<'a>,
    opcode: u8,
)
    requires
        spec_execute(code, pool, frame) == Err::<FrameView<'a>, DecodeErrorView>(
            DecodeErrorView::UnsupportedOpcode(opcode),
        ),
    ensures
        !is_supported(opcode),
        exists|at: int| frame.pc <= at < code.len() && code[at] == opcode,
    decreases code.len() - frame.pc,
{
    match spec_step(code, pool, frame) {
        Ok(Flow::Next(next)) => {
            lemma_reported_opcode_was_fetched(code, pool, next, opcode);
            let at = choose|at: int| next.pc <= at < code.len() && code[at] == opcode;
            assert(frame.pc <= at < code.len() && code[at] == opcode);
        },
        Ok(Flow::Return) => {},
        Err(_) => {
            assert(code[frame.pc as int] == opcode);
        },
    }
}

/// A class without a method called `main` fails with
/// [`DecodeError::MissingMethod`] whatever else it holds: no method of it is
/// looked at, let alone run.
pub proof fn lemma_main_is_required<'a>(class: ClassFileView, receiver: Operand<'a>)
    requires
        forall|i: int| 0 <= i < class.methods.len() ==> (#[trigger] class.methods[i]).name != MAIN@,
    ensures
        spec_run(class, receiver) == Err::<(), DecodeErrorView>(
            DecodeErrorView::MissingMethod(MAIN@),
        ),
{
    crate::classes::lemma_last_method_of_a_name_wins(class.methods, MAIN@);
}

impl<'a> Frame<'a> {
    /// The frame in which a method starts on `receiver`: the receiver in
    /// local slot 0, nothing on the stack, the program counter at 0.
    pub fn new(receiver: &'a Object<'a>, code: &CodeAttribute) -> (frame: Frame<'a>)
        ensures
            frame@ == initial_frame(Operand::Ref(receiver)),
    {
        let mut local_variables: Vec<Operand<'a>> = Vec::with_capacity(code.max_locals as usize);
        local_variables.push(Operand::Ref(receiver));
        let operand_stack: Vec<Operand<'a>> = Vec::with_capacity(code.max_stack as usize);
        let frame = Frame { local_variables, operand_stack, program_counter: 0 };
        assert(frame@.locals =~= initial_frame(Operand::Ref(receiver)).locals);
        assert(frame@.stack =~= initial_frame(Operand::Ref(receiver)).stack);
        frame
    }

    /// Fetches the instruction at the program counter and executes it.
    ///
    /// The opcode selects the handler. A byte that is no implemented opcode
    /// is reported by its value. Where the instruction fails, the frame is
    /// left as it was. Where the program counter has left the code, there is
    /// nothing to fetch and the frame has returned.
    pub fn step(&mut self, code: &[u8], constant_pool: &HashMap<u16, ConstantPoolEntry<'a>>) -> (r:
        Result<Control, DecodeError>)
        requires
            frame_is_bound(old(self)@),
        ensures
            match spec_step(code@, pool_view(constant_pool@), old(self)@) {
                Err(failure) => r matches Err(e) && e@ == failure && final(self)@ == old(self)@,
                Ok(Flow::Return) => r == Ok::<Control, DecodeError>(Control::Return)
                    && final(self)@ == old(self)@,
                Ok(Flow::Next(next)) => r == Ok::<Control, DecodeError>(Control::Continue)
                    && final(self)@ == next,
            },
            old(self).program_counter < code@.len() && !is_supported(
                code@[old(self).program_counter as int],
            ) ==> r == Err::<Control, DecodeError>(
                DecodeError::UnsupportedOpcode(code@[old(self).program_counter as int]),
            ),
            frame_is_bound(final(self)@),
            r == Ok::<Control, DecodeError>(Control::Continue) ==> old(self).program_counter
                < final(self).program_counter <= code@.len(),
    {
        if self.program_counter >= code.len() {
            return Ok(Control::Return);
        }
        let opcode = code[self.program_counter];
        if opcode == ICONST_3 {
            iconst_3(self);
            Ok(Control::Continue)
        } else if opcode == ALOAD_0 {
            aload_0(self);
            Ok(Control::Continue)
        } else if opcode == RETURN {
            Ok(Control::Return)
        } else if opcode == GETSTATIC {
            getstatic(self, code, constant_pool)?;
            Ok(Control::Continue)
        } else if opcode == INVOKESPECIAL {
            invokespecial(self, code, constant_pool)?;
            Ok(Control::Continue)
        } else {
            Err(DecodeError::UnsupportedOpcode(opcode))
        }
    }
}

/// `iconst_3`: pushes the integer 3 and moves on by one byte.
pub fn iconst_3<'a>(frame: &mut Frame<'a>)
    requires
        old(frame).program_counter < usize::MAX,
    ensures
        final(frame)@ == (FrameView {
            stack: spec_iconst_3(old(frame)@),
            pc: old(frame)@.pc + 1,
            ..old(frame)@
        }),
{
    frame.operand_stack.push(Operand::Int(3));
    frame.program_counter = frame.program_counter + 1;
}

/// `aload_0`: pushes what local slot 0 holds and moves on by one byte.
pub fn aload_0<'a>(frame: &mut Frame<'a>)
    requires
        frame_is_bound(old(frame)@),
        old(frame).program_counter < usize::MAX,
    ensures
        final(frame)@ == (FrameView {
            stack: spec_aload_0(old(frame)@),
            pc: old(frame)@.pc + 1,
            ..old(frame)@
        }),
{
    let receiver = frame.local_variables[0];
    frame.operand_stack.push(receiver);
    frame.program_counter = frame.program_counter + 1;
}

/// `getstatic`: joins the two operand bytes into the index of a field
/// reference and resolves it to the names of the class and of the field and
/// to the descriptor. Fields are not stored, so nothing is pushed. Moves on
/// by three bytes.
pub fn getstatic<'a>(
    frame: &mut Frame<'a>,
    code: &[u8],
    constant_pool: &HashMap<u16, ConstantPoolEntry<'a>>,
) -> (r: Result<ResolvedMember<'a>, DecodeError>)
    ensures
        match spec_getstatic(code@, pool_view(constant_pool@), old(frame)@) {
            Err(failure) => r matches Err(e) && e@ == failure && final(frame)@ == old(frame)@,
            Ok(stack) => r is Ok && final(frame)@ == (FrameView {
                stack,
                pc: old(frame)@.pc + 3,
                ..old(frame)@
            }),
        },
        r matches Ok(member) ==> spec_resolve_field_ref(
            pool_view(constant_pool@),
            u16_at(code@, old(frame)@.pc as int + 1),
        ) == Ok::<MemberView, DecodeErrorView>(member@),
{
    let pc: usize = frame.program_counter;
    if pc >= code.len() || code.len() - pc < 3 {
        return Err(DecodeError::Truncated);
    }
    let index = join_u16(code[pc + 1], code[pc + 2]);
    let member = resolve_field_ref(constant_pool, index)?;
    frame.program_counter = pc + 3;
    Ok(member)
}

/// `invokespecial`: pops the reference on top of the stack, joins the two
/// operand bytes into the index of a method reference and resolves it. The
/// constructor of the root class does nothing, and is the only method that
/// can be called. Moves on by three bytes.
pub fn invokespecial<'a>(
    frame: &mut Frame<'a>,
    code: &[u8],
    constant_pool: &HashMap<u16, ConstantPoolEntry<'a>>,
) -> (r: Result<(), DecodeError>)
    ensures
        match spec_invokespecial(code@, pool_view(constant_pool@), old(frame)@) {
            Err(failure) => r matches Err(e) && e@ == failure && final(frame)@ == old(frame)@,
            Ok(stack) => r is Ok && final(frame)@ == (FrameView {
                stack,
                pc: old(frame)@.pc + 3,
                ..old(frame)@
            }),
        },
{
    let depth: usize = frame.operand_stack.len();
    if depth == 0 {
        return Err(DecodeError::ExpectedReference);
    }
    match frame.operand_stack[depth - 1] {
        Operand::Ref(_) => {},
        Operand::Int(_) => {
            return Err(DecodeError::ExpectedReference);
        },
    }
    let pc: usize = frame.program_counter;
    if pc >= code.len() || code.len() - pc < 3 {
        return Err(DecodeError::Truncated);
    }
    let index = join_u16(code[pc + 1], code[pc + 2]);
    let member = resolve_method_ref(constant_pool, index)?;
    if !(str_eq(member.class_name, OBJECT_CLASS) && str_eq(member.name, CONSTRUCTOR) && str_eq(
        member.descriptor,
        NO_ARGS_VOID,
    )) {
        return Err(DecodeError::UnsupportedDynamicDispatch);
    }
    frame.operand_stack.pop();
    frame.program_counter = pc + 3;
    Ok(())
}

/// Runs the method `method_name` of the receiver's class on the receiver,
/// and returns the frame as the method left it.
///
/// The frame ends at a `return`, or where the program counter runs off the
/// end of the code. The class must have the method, else
/// [`DecodeError::MissingMethod`], and the method must have code, else
/// [`DecodeError::MissingCode`].
pub fn run_method<'a>(obj: &'a Object<'a>, method_name: &str) -> (r: Result<Frame<'a>, DecodeError>)
    ensures
        reports(r, spec_run_method(obj.class@, Operand::Ref(obj), method_name@)),
{
    let method = match obj.class.method(method_name) {
        Some(method) => method,
        None => {
            return Err(DecodeError::MissingMethod(method_name.to_owned()));
        },
    };
    let code_attr = match method.code() {
        Some(code_attr) => code_attr,
        None => {
            return Err(DecodeError::MissingCode);
        },
    };
    let code = code_attr.code_slice;
    let constant_pool = obj.class.constant_pool();
    let mut frame = Frame::new(obj, code_attr);
    loop
        invariant
            frame_is_bound(frame@),
            spec_execute(code@, pool_view(constant_pool@), frame@) == spec_run_method(
                obj.class@,
                Operand::Ref(obj),
                method_name@,
            ),
        decreases code@.len() - frame.program_counter,
    {
        match frame.step(code, constant_pool)? {
            Control::Continue => {},
            Control::Return => {
                return Ok(frame);
            },
        }
    }
}

/// Runs a class: its `<init>`, then its `main`, both on one new object.
///
/// A class without a method called `main` fails with
/// [`DecodeError::MissingMethod`] before anything is interpreted.
pub fn run<'a>(class: &'a ClassFile<'a>) -> (r: Result<(), DecodeError>)
    ensures
        reports(r, spec_run(class@, receiver_of(class))),
        spec_method_named(class@.methods, MAIN@) is None ==> (r matches Err(e) && e@
            == DecodeErrorView::MissingMethod(MAIN@)),
{
    if !class.has_method(MAIN) {
        return Err(DecodeError::MissingMethod(MAIN.to_owned()));
    }
    let object = Object { class };
    run_method(&object, CONSTRUCTOR)?;
    run_method(&object, MAIN)?;
    Ok(())
}

} // verus!

//! The saved state of a thread that is not running.

use vstd::prelude::*;
use crate::memory::VirtualAddress;
use crate::multitasking::ProcessID;

verus! {

/// What is kept of a thread while it does not run, and what it is resumed
/// from: where it continues, its two stack pointers, the argument
/// registers, and the address space that is active while it runs. The
/// multitasking layer hands contexts on and never looks into one; whoever
/// resumes a context switches to its address space first, if another one is
/// active.
#[derive(Debug, PartialEq, Eq, Structural, Clone, Copy)]
pub struct Context {
    /// The address of the next instruction.
    pub instruction_pointer: VirtualAddress,
    /// The stack pointer in user mode.
    pub stack_pointer: VirtualAddress,
    /// The stack pointer in kernel mode.
    pub kernel_stack_pointer: VirtualAddress,
    /// The address space that is active while the thread runs, named by the
    /// ID of its process; 0 names the kernel's own.
    pub address_space: ProcessID,
    /// The first argument register.
    pub arg1: u64,
    /// The second argument register.
    pub arg2: u64,
    /// The third argument register.
    pub arg3: u64,
    /// The fourth argument register.
    pub arg4: u64,
    /// The fifth argument register.
    pub arg5: u64,
    /// Whether the thread runs in user mode when it is resumed.
    pub user_mode: bool,
}

impl Context {
    /// The context of a thread that has not run yet.
    pub open spec fn new_spec(
        function: VirtualAddress,
        stack_pointer: VirtualAddress,
        kernel_stack_pointer: VirtualAddress,
        address_space: ProcessID,
        arg1: u64,
        arg2: u64,
        arg3: u64,
        arg4: u64,
        arg5: u64,
    ) -> Context {
        Context {
            instruction_pointer: function,
            stack_pointer,
            kernel_stack_pointer,
            address_space,
            arg1,
            arg2,
            arg3,
            arg4,
            arg5,
            user_mode: true,
        }
    }

    /// The context of a CPU's idle loop.
    pub open spec fn idle_spec(stack_pointer: VirtualAddress) -> Context {
        Context {
            instruction_pointer: 0,
            stack_pointer,
            kernel_stack_pointer: stack_pointer,
            address_space: 0,
            arg1: 0,
            arg2: 0,
            arg3: 0,
            arg4: 0,
            arg5: 0,
            user_mode: false,
        }
    }

    /// The context of a thread that has not run yet: it starts at `function`
    /// in user mode, on the given stacks, in the address space of the given
    /// process, with the given arguments.
    pub fn new(
        function: VirtualAddress,
        stack_pointer: VirtualAddress,
        kernel_stack_pointer: VirtualAddress,
        address_space: ProcessID,
        arg1: u64,
        arg2: u64,
        arg3: u64,
        arg4: u64,
        arg5: u64,
    ) -> (context: Context)
        ensures
            context == Context::new_spec(
                function,
                stack_pointer,
                kernel_stack_pointer,
                address_space,
                arg1,
                arg2,
                arg3,
                arg4,
                arg5,
            ),
    {
        Context {
            instruction_pointer: function,
            stack_pointer,
            kernel_stack_pointer,
            address_space,
            arg1,
            arg2,
            arg3,
            arg4,
            arg5,
            user_mode: true,
        }
    }

    /// The context of a CPU's idle loop, which runs in kernel mode on the
    /// given stack, in the kernel's own address space. The architecture
    /// supplies the loop itself.
    pub fn idle_context(stack_pointer: VirtualAddress) -> (context: Context)
        ensures
            context == Context::idle_spec(stack_pointer),
    {
        Context {
            instruction_pointer: 0,
            stack_pointer,
            kernel_stack_pointer: stack_pointer,
            address_space: 0,
            arg1: 0,
            arg2: 0,
            arg3: 0,
            arg4: 0,
            arg5: 0,
            user_mode: false,
        }
    }
}

} // verus!

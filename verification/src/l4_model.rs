//! The event model: each kind of event carries only the data it needs.
use vstd::prelude::*;
use crate::text::{dec, dec_int, push_dec, push_dec_signed};

pub mod ai_draft;

verus! {

/// A process id, kept apart from exit codes by its type.
#[derive(Debug, Clone, Copy, PartialEq, Eq)]
pub struct ProcessId(pub u32);

/// A process exit code.
#[derive(Debug, Clone, Copy, PartialEq, Eq)]
pub struct ExitCode(pub i32);

/// The resources that can raise an alert.
#[derive(Debug, Clone, Copy, PartialEq, Eq)]
pub enum Resource {
    Cpu,
    Memory,
}

/// A monitor event.
#[derive(Debug, Clone, PartialEq)]
pub enum Event {
    ProcessStarted { pid: ProcessId, name: String },
    ProcessExited { pid: ProcessId, code: ExitCode },
    ResourceAlert { resource: Resource, percent: u8 },
    Heartbeat,
}

/// The one-line description of an event.
pub open spec fn describe_spec(e: Event) -> Seq<char> {
    match e {
        Event::ProcessStarted { pid, name } => "进程启动：PID "@ + dec(pid.0 as nat) + "，名称 "@
            + name@,
        Event::ProcessExited { pid, code } => "进程退出：PID "@ + dec(pid.0 as nat) + "，退出码 "@
            + dec_int(code.0 as int),
        Event::ResourceAlert { resource: Resource::Cpu, percent } => "CPU 资源告警："@ + dec(
            percent as nat,
        ) + "%"@,
        Event::ResourceAlert { resource: Resource::Memory, percent } => "内存资源告警："@ + dec(
            percent as nat,
        ) + "%"@,
        Event::Heartbeat => "心跳"@,
    }
}

/// Describes an event; every variant is matched by name, none by a catch-all.
pub fn describe(e: &Event) -> (s: String)
    ensures
        s@ == describe_spec(*e),
{
    let mut s = String::new();
    match e {
        Event::ProcessStarted { pid, name } => {
            s.push_str("进程启动：PID ");
            push_dec(&mut s, pid.0 as u64);
            s.push_str("，名称 ");
            s.push_str(name.as_str());
        },
        Event::ProcessExited { pid, code } => {
            s.push_str("进程退出：PID ");
            push_dec(&mut s, pid.0 as u64);
            s.push_str("，退出码 ");
            push_dec_signed(&mut s, code.0 as i64);
        },
        Event::ResourceAlert { resource: Resource::Cpu, percent } => {
            s.push_str("CPU 资源告警：");
            push_dec(&mut s, *percent as u64);
            s.push_str("%");
        },
        Event::ResourceAlert { resource: Resource::Memory, percent } => {
            s.push_str("内存资源告警：");
            push_dec(&mut s, *percent as u64);
            s.push_str("%");
        },
        Event::Heartbeat => {
            s.push_str("心跳");
        },
    }
    assert(s@ =~= describe_spec(*e));
    s
}

} // verus!

use vstd::prelude::*;

verus! {

/// Size of the pseudo-terminal. Rows and columns must be positive for a usable
/// session; the pixel sizes are advisory and may be 0.
#[derive(Debug, Clone, Copy, PartialEq, Eq, Structural)]
pub struct PtySize {
    pub rows: u16,
    pub cols: u16,
    pub pixel_width: u16,
    pub pixel_height: u16,
}

impl PtySize {
    /// A size of `rows` by `cols` with no pixel dimensions, as a resize asks for.
    pub fn new(rows: u16, cols: u16) -> (r: PtySize)
        ensures
            r.rows == rows,
            r.cols == cols,
            r.pixel_width == 0,
            r.pixel_height == 0,
    {
        PtySize { rows, cols, pixel_width: 0, pixel_height: 0 }
    }

    /// The size the terminal is opened with: 24 rows of 80 columns.
    pub fn initial() -> (r: PtySize)
        ensures
            r == (PtySize { rows: 24, cols: 80, pixel_width: 0, pixel_height: 0 }),
    {
        PtySize::new(24, 80)
    }

    pub fn is_usable(&self) -> (r: bool)
        ensures
            r == (self.rows > 0 && self.cols > 0),
    {
        self.rows > 0 && self.cols > 0
    }
}

/// How a shell's exit status reads as a signed process exit code: the raw
/// 32-bit value taken in two's complement.
pub open spec fn signed_code(raw: u32) -> int {
    if raw <= 0x7fff_ffff {
        raw as int
    } else {
        raw as int - 0x1_0000_0000
    }
}

/// The exit status of the shell.
#[derive(Debug, Clone, Copy, PartialEq, Eq, Structural)]
pub struct ExitStatus {
    pub code: i32,
}

impl ExitStatus {
    /// The status for the shell's raw exit code.
    pub fn from_raw(raw: u32) -> (r: ExitStatus)
        ensures
            r.code as int == signed_code(raw),
    {
        if raw <= 0x7fff_ffff {
            ExitStatus { code: raw as i32 }
        } else {
            ExitStatus { code: ((raw - 0x8000_0000) as i32) - 0x7fff_ffff - 1 }
        }
    }
}

/// What the session owner does once the shell has exited.
#[derive(Debug, Clone, Copy, PartialEq, Eq, Structural)]
pub enum ExitPolicy {
    /// The host lives exactly as long as the shell: it exits with the shell's code.
    TerminateHost,
    /// The host stays up and is told the status.
    Report,
}

#[derive(Debug, Clone, Copy, PartialEq, Eq, Structural)]
pub enum ExitAction {
    /// End the host process with this exit code.
    Exit(i32),
    /// Keep running and hand this status to the session owner.
    Notify(ExitStatus),
}

/// Decides what follows the shell's exit with raw code `raw`. Under
/// `TerminateHost` the host exits with exactly the shell's code.
pub fn on_shell_exit(policy: ExitPolicy, raw: u32) -> (r: ExitAction)
    ensures
        policy == ExitPolicy::TerminateHost ==> r is Exit && r->Exit_0 as int == signed_code(raw),
        policy == ExitPolicy::Report ==> r is Notify && r->Notify_0.code as int == signed_code(raw),
{
    let status = ExitStatus::from_raw(raw);
    match policy {
        ExitPolicy::TerminateHost => ExitAction::Exit(status.code),
        ExitPolicy::Report => ExitAction::Notify(status),
    }
}

} // verus!

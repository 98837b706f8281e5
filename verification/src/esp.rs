//! ESP tooling through `espflash`: its command lines, and what its output means.
use vstd::prelude::*;

use crate::config::PortConfig;
use crate::reader::{from_utf8_lossy, lossy_utf8};
use crate::text::{copy_text, push_dec};

verus! {

/// Whether `espflash` is there, once it is known.
pub struct EspTool {
    pub found: Option<bool>,
}

impl EspTool {
    pub fn new() -> (r: EspTool)
        ensures
            r.found is None,
    {
        EspTool { found: None }
    }
}

/// Check if `espflash` is available. The first answer is kept: `detected` counts only where there
/// is none yet.
pub fn is_available(tool: &mut EspTool, detected: bool) -> (r: bool)
    ensures
        r == (match old(tool).found {
            Some(f) => f,
            None => detected,
        }),
        final(tool).found == Some(r),
{
    match tool.found {
        Some(f) => f,
        None => {
            tool.found = Some(detected);
            detected
        },
    }
}

/// The name of the program.
pub fn espflash_bin() -> (r: &'static str)
    ensures
        r@ == "espflash"@,
{
    "espflash"
}

/// The message where the program is not there.
pub fn missing_text() -> (r: String)
    ensures
        r@ == "espflash not found in PATH. Install with: cargo install espflash"@,
{
    copy_text("espflash not found in PATH. Install with: cargo install espflash")
}

/// The arguments of a flash.
pub open spec fn flash_spec(
    port: Seq<char>,
    firmware: Seq<char>,
    baud: Option<u32>,
    monitor_after: bool,
) -> Seq<Seq<char>> {
    seq!["flash"@, "--port"@, port] + (match baud {
        Some(b) => seq!["--baud"@, crate::text::dec(b as nat)],
        None => Seq::empty(),
    }) + (if monitor_after {
        seq!["--monitor"@]
    } else {
        Seq::empty()
    }) + seq![firmware]
}

/// The arguments that flash a firmware file.
pub fn flash_args(port: &str, firmware: &str, baud: Option<u32>, monitor_after: bool) -> (r: Vec<
    String,
>)
    ensures
        crate::text::texts(r@) == flash_spec(port@, firmware@, baud, monitor_after),
{
    let mut v: Vec<String> = Vec::new();
    v.push(copy_text("flash"));
    v.push(copy_text("--port"));
    v.push(copy_text(port));
    if let Some(b) = baud {
        v.push(copy_text("--baud"));
        let mut s = String::new();
        push_dec(&mut s, b as u64);
        proof {
            assert(s@ =~= crate::text::dec(b as nat));
        }
        v.push(s);
    }
    if monitor_after {
        v.push(copy_text("--monitor"));
    }
    v.push(copy_text(firmware));
    proof {
        assert(crate::text::texts(v@) =~= flash_spec(port@, firmware@, baud, monitor_after));
    }
    v
}

/// The arguments that ask for the board.
pub fn board_info_args(port: &str) -> (r: Vec<String>)
    ensures
        crate::text::texts(r@) == seq!["board-info"@, "--port"@, port@],
{
    let mut v: Vec<String> = Vec::new();
    v.push(copy_text("board-info"));
    v.push(copy_text("--port"));
    v.push(copy_text(port));
    proof {
        assert(crate::text::texts(v@) =~= seq!["board-info"@, "--port"@, port@]);
    }
    v
}

/// The arguments that erase the flash.
pub fn erase_flash_args(port: &str) -> (r: Vec<String>)
    ensures
        crate::text::texts(r@) == seq!["erase-flash"@, "--port"@, port@],
{
    let mut v: Vec<String> = Vec::new();
    v.push(copy_text("erase-flash"));
    v.push(copy_text("--port"));
    v.push(copy_text(port));
    proof {
        assert(crate::text::texts(v@) =~= seq!["erase-flash"@, "--port"@, port@]);
    }
    v
}

/// The arguments that write a binary file to an address.
pub fn write_bin_args(port: &str, file_path: &str, address: &str) -> (r: Vec<String>)
    ensures
        crate::text::texts(r@) == seq!["write-bin"@, "--port"@, port@, address@, file_path@],
{
    let mut v: Vec<String> = Vec::new();
    v.push(copy_text("write-bin"));
    v.push(copy_text("--port"));
    v.push(copy_text(port));
    v.push(copy_text(address));
    v.push(copy_text(file_path));
    proof {
        assert(crate::text::texts(v@) =~= seq![
            "write-bin"@,
            "--port"@,
            port@,
            address@,
            file_path@,
        ]);
    }
    v
}

/// What a finished run says: on success its output and then its diagnostics; on failure its
/// diagnostics, or else its output, or else its status.
pub open spec fn run_spec(
    success: bool,
    stdout: Seq<char>,
    stderr: Seq<char>,
    status: Seq<char>,
) -> Result<Seq<char>, Seq<char>> {
    if success {
        Ok(
            if stderr.len() == 0 {
                stdout
            } else if stdout.len() == 0 {
                stderr
            } else {
                stdout + "\n"@ + stderr
            },
        )
    } else {
        Err(
            if stderr.len() > 0 {
                stderr
            } else if stdout.len() > 0 {
                stdout
            } else {
                "espflash exited with status "@ + status
            },
        )
    }
}

/// A result as texts.
pub open spec fn texts_outcome(r: Result<String, String>) -> Result<Seq<char>, Seq<char>> {
    match r {
        Ok(s) => Ok(s@),
        Err(s) => Err(s@),
    }
}

/// What a finished run says, its output being text.
pub fn run_outcome(success: bool, stdout: String, stderr: String, status: &str) -> (r: Result<
    String,
    String,
>)
    ensures
        texts_outcome(r) == run_spec(success, stdout@, stderr@, status@),
{
    if success {
        let mut s = stdout;
        if !stderr.as_str().is_empty() {
            let ghost out = s@;
            if !s.as_str().is_empty() {
                s.append("\n");
            }
            s.append(stderr.as_str());
            proof {
                assert(out.len() == 0 ==> s@ =~= stderr@);
            }
        }
        Ok(s)
    } else {
        if !stderr.as_str().is_empty() {
            return Err(stderr);
        }
        if !stdout.as_str().is_empty() {
            return Err(stdout);
        }
        let mut s = copy_text("espflash exited with status ");
        s.append(status);
        Err(s)
    }
}

/// What a finished run says, by the bytes that it wrote.
pub fn run_result(success: bool, stdout: &[u8], stderr: &[u8], status: &str) -> (r: Result<
    String,
    String,
>)
    ensures
        texts_outcome(r) == run_spec(success, lossy_utf8(stdout@), lossy_utf8(stderr@), status@),
        crate::reader::true_text(stdout@),
        crate::reader::true_text(stderr@),
{
    let out = from_utf8_lossy(stdout);
    let err = from_utf8_lossy(stderr);
    run_outcome(success, out, err, status)
}

/// The message where the program could not be run.
pub fn not_run_text(why: &str) -> (r: String)
    ensures
        r@ == "failed to run espflash: "@ + why@,
{
    let mut s = copy_text("failed to run espflash: ");
    s.append(why);
    s
}

// --- What is left in the buffer ---

/// How a run went.
pub open spec fn verdict(ok: bool) -> Seq<char> {
    if ok {
        "OK"@
    } else {
        "FAILED"@
    }
}

fn verdict_text(ok: bool) -> (r: &'static str)
    ensures
        r@ == verdict(ok),
{
    if ok {
        "OK"
    } else {
        "FAILED"
    }
}

/// The line that a flash leaves in the buffer.
pub fn flash_log_text(firmware: &str, ok: bool) -> (r: String)
    ensures
        r@ == "━━━ FLASH "@ + firmware@ + " → "@ + verdict(ok) + " ━━━"@,
{
    let mut s = copy_text("━━━ FLASH ");
    s.append(firmware);
    s.append(" → ");
    s.append(verdict_text(ok));
    s.append(" ━━━");
    s
}

/// The line that an erase leaves in the buffer.
pub fn erase_log_text(ok: bool) -> (r: String)
    ensures
        r@ == "━━━ ERASE FLASH → "@ + verdict(ok) + " ━━━"@,
{
    let mut s = copy_text("━━━ ERASE FLASH → ");
    s.append(verdict_text(ok));
    s.append(" ━━━");
    s
}

/// The line that the writing of a binary leaves in the buffer.
pub fn write_bin_log_text(file_path: &str, address: &str, ok: bool) -> (r: String)
    ensures
        r@ == "━━━ WRITE-BIN "@ + file_path@ + " @ "@ + address@ + " → "@ + verdict(ok) + " ━━━"@,
{
    let mut s = copy_text("━━━ WRITE-BIN ");
    s.append(file_path);
    s.append(" @ ");
    s.append(address);
    s.append(" → ");
    s.append(verdict_text(ok));
    s.append(" ━━━");
    s
}

// --- A port during the work of the program ---

/// Milliseconds between the end of the program and the reopening of its port.
pub const REOPEN_DELAY_MS: u64 = 500;

/// What happens while the program works on a port.
pub enum EspEvent {
    /// The program is to be run; the port is managed or not.
    Asked { managed: bool },
    /// The monitor window of the port is closed.
    MonitorClosed,
    /// The port is closed: its settings, where it was still managed.
    Released(Option<PortConfig>),
    /// The program has ended.
    Done,
    /// The wait before the reopening is over.
    Waited,
    /// The port was reopened, or could not be.
    Reopened,
}

/// What is done while the program works on a port.
pub enum EspAction {
    CloseMonitor,
    Release,
    Run,
    Wait { ms: u64 },
    Reopen(PortConfig),
    Finish,
}

/// The work of the program on a port.
pub struct EspJob {
    /// The settings of the port that was released.
    pub released: Option<PortConfig>,
}

/// What is done after an event.
pub open spec fn esp_spec(job: EspJob, event: EspEvent) -> EspAction {
    match event {
        EspEvent::Asked { managed } => if managed {
            EspAction::CloseMonitor
        } else {
            EspAction::Run
        },
        EspEvent::MonitorClosed => EspAction::Release,
        EspEvent::Released(_) => EspAction::Run,
        EspEvent::Done => if job.released is Some {
            EspAction::Wait { ms: REOPEN_DELAY_MS }
        } else {
            EspAction::Finish
        },
        EspEvent::Waited => match job.released {
            Some(config) => EspAction::Reopen(config),
            None => EspAction::Finish,
        },
        EspEvent::Reopened => EspAction::Finish,
    }
}

/// The work after an event.
pub open spec fn esp_after(job: EspJob, event: EspEvent) -> EspJob {
    match event {
        EspEvent::Released(config) => EspJob { released: config },
        EspEvent::Waited => EspJob { released: None },
        _ => job,
    }
}

impl EspJob {
    pub fn new() -> (r: EspJob)
        ensures
            r.released is None,
    {
        EspJob { released: None }
    }

    /// Take an event in. A managed port is released before the program runs, its window first, and
    /// reopened afterwards with the settings that it had.
    pub fn step(&mut self, event: EspEvent) -> (r: EspAction)
        ensures
            r == esp_spec(*old(self), event),
            *final(self) == esp_after(*old(self), event),
    {
        match event {
            EspEvent::Asked { managed } => if managed {
                EspAction::CloseMonitor
            } else {
                EspAction::Run
            },
            EspEvent::MonitorClosed => EspAction::Release,
            EspEvent::Released(config) => {
                self.released = config;
                EspAction::Run
            },
            EspEvent::Done => if self.released.is_some() {
                EspAction::Wait { ms: REOPEN_DELAY_MS }
            } else {
                EspAction::Finish
            },
            EspEvent::Waited => {
                match self.released.take() {
                    Some(config) => EspAction::Reopen(config),
                    None => EspAction::Finish,
                }
            },
            EspEvent::Reopened => EspAction::Finish,
        }
    }
}

/// A port that was released for the program is reopened once it has ended, with the settings that it
/// had; a port that is not managed is neither closed nor opened.
pub proof fn law_released_port_reopened(job: EspJob, config: PortConfig)
    requires
        job.released is None,
    ensures
        ({
            let asked = esp_after(job, EspEvent::Asked { managed: true });
            let closed = esp_after(asked, EspEvent::MonitorClosed);
            let released = esp_after(closed, EspEvent::Released(Some(config)));
            let done = esp_after(released, EspEvent::Done);
            &&& esp_spec(job, EspEvent::Asked { managed: true }) == EspAction::CloseMonitor
            &&& esp_spec(asked, EspEvent::MonitorClosed) == EspAction::Release
            &&& esp_spec(closed, EspEvent::Released(Some(config))) == EspAction::Run
            &&& esp_spec(released, EspEvent::Done) == (EspAction::Wait { ms: REOPEN_DELAY_MS })
            &&& esp_spec(done, EspEvent::Waited) == EspAction::Reopen(config)
        }),
        esp_spec(job, EspEvent::Asked { managed: false }) == EspAction::Run,
        esp_spec(esp_after(job, EspEvent::Asked { managed: false }), EspEvent::Done)
            == EspAction::Finish,
{
}

/// A flash names its port and its firmware, the firmware last, and the baud rate and the wish for a
/// monitor exactly where they are given.
pub proof fn law_flash_arguments(port: Seq<char>, firmware: Seq<char>, b: u32)
    ensures
        flash_spec(port, firmware, None, false) == seq!["flash"@, "--port"@, port, firmware],
        flash_spec(port, firmware, Some(b), false) == seq![
            "flash"@,
            "--port"@,
            port,
            "--baud"@,
            crate::text::dec(b as nat),
            firmware,
        ],
        flash_spec(port, firmware, None, true) == seq![
            "flash"@,
            "--port"@,
            port,
            "--monitor"@,
            firmware,
        ],
        flash_spec(port, firmware, Some(b), true) == seq![
            "flash"@,
            "--port"@,
            port,
            "--baud"@,
            crate::text::dec(b as nat),
            "--monitor"@,
            firmware,
        ],
{
    assert(flash_spec(port, firmware, None, false) =~= seq!["flash"@, "--port"@, port, firmware]);
    assert(flash_spec(port, firmware, Some(b), false) =~= seq![
        "flash"@,
        "--port"@,
        port,
        "--baud"@,
        crate::text::dec(b as nat),
        firmware,
    ]);
    assert(flash_spec(port, firmware, None, true) =~= seq![
        "flash"@,
        "--port"@,
        port,
        "--monitor"@,
        firmware,
    ]);
    assert(flash_spec(port, firmware, Some(b), true) =~= seq![
        "flash"@,
        "--port"@,
        port,
        "--baud"@,
        crate::text::dec(b as nat),
        "--monitor"@,
        firmware,
    ]);
}

/// A run is good exactly if the tool says so. A good one gives both of its streams, the output first
/// and a line feed between them where both hold something. A bad one gives its diagnostics, or else its
/// output, or else its status.
pub proof fn law_run_results(
    success: bool,
    stdout: Seq<char>,
    stderr: Seq<char>,
    status: Seq<char>,
)
    ensures
        run_spec(success, stdout, stderr, status) is Ok <==> success,
        success && stdout.len() > 0 && stderr.len() > 0 ==> run_spec(
            success,
            stdout,
            stderr,
            status,
        )->Ok_0 == stdout + "\n"@ + stderr,
        success && (stdout.len() == 0 || stderr.len() == 0) ==> run_spec(
            success,
            stdout,
            stderr,
            status,
        )->Ok_0 == stdout + stderr,
        !success && stderr.len() > 0 ==> run_spec(success, stdout, stderr, status)->Err_0 == stderr,
        !success && stderr.len() == 0 && stdout.len() > 0 ==> run_spec(
            success,
            stdout,
            stderr,
            status,
        )->Err_0 == stdout,
        !success && stderr.len() == 0 && stdout.len() == 0 ==> run_spec(
            success,
            stdout,
            stderr,
            status,
        )->Err_0 == "espflash exited with status "@ + status,
        verdict(success) == (if success {
            "OK"@
        } else {
            "FAILED"@
        }),
{
    if stderr.len() == 0 {
        assert(stdout + stderr =~= stdout);
    }
    if stdout.len() == 0 {
        assert(stdout + stderr =~= stderr);
    }
}

/// The order of the work. A managed port has its monitor closed and is released before the tool runs;
/// any other is used at once. A port that was released is opened again half a second after the tool is
/// done, with the settings that it had, and only such a port is.
pub proof fn law_work_order(job: EspJob, config: Option<PortConfig>)
    ensures
        esp_spec(job, EspEvent::Asked { managed: true }) is CloseMonitor,
        esp_spec(job, EspEvent::Asked { managed: false }) is Run,
        esp_spec(job, EspEvent::MonitorClosed) is Release,
        esp_spec(job, EspEvent::Released(config)) is Run,
        esp_after(job, EspEvent::Released(config)).released == config,
        job.released is Some ==> esp_spec(job, EspEvent::Done) == (EspAction::Wait { ms: 500 }),
        job.released is None ==> esp_spec(job, EspEvent::Done) is Finish,
        job.released matches Some(c) ==> esp_spec(job, EspEvent::Waited) == EspAction::Reopen(c),
        esp_after(job, EspEvent::Waited).released is None,
        esp_after(job, EspEvent::Done) == job,
        esp_spec(job, EspEvent::Reopened) is Finish,
{
}

/// A result is seen by the characters of its text.
pub proof fn law_result_texts(s: String)
    ensures
        texts_outcome(Ok::<String, String>(s)) == Ok::<Seq<char>, Seq<char>>(s@),
        texts_outcome(Err::<String, String>(s)) == Err::<Seq<char>, Seq<char>>(s@),
{
}

} // verus!

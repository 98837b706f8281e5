//! Controlling devices: opening, writing, signals, macros, and the commands of a monitor window.
use vstd::prelude::*;
use vstd::utf8::encode_utf8;

use crate::config::{Config, MacroStep, PortConfig};
use crate::hex::{decode_good_pairs, hex_decode};
use crate::names::NameMap;
use crate::server::ConfigurePortParams;
use crate::text::{
    chars_of, copy_text, join, push_dec, same_text, starts_with, strip_prefix, text_between, trim,
};

verus! {

// --- Opening and closing ---

/// The settings that a port is opened with: what is asked for, and otherwise the base.
pub open spec fn merged(base: PortConfig, params: ConfigurePortParams, r: PortConfig) -> bool {
    &&& r.baudrate == (match params.baudrate {
        Some(b) => b,
        None => base.baudrate,
    })
    &&& r.data_bits == (match params.data_bits {
        Some(b) => b,
        None => base.data_bits,
    })
    &&& r.parity@ == (match params.parity {
        Some(p) => p@,
        None => base.parity@,
    })
    &&& r.stop_bits == (match params.stop_bits {
        Some(b) => b,
        None => base.stop_bits,
    })
    &&& r.flow_control@ == base.flow_control@
    &&& r.delimiter == base.delimiter
    &&& r.auto_reconnect == base.auto_reconnect
    &&& r.reconnect_interval_ms == base.reconnect_interval_ms
    &&& r.reconnect_max_backoff_ms == base.reconnect_max_backoff_ms
    &&& r.max_buffer_lines == base.max_buffer_lines
}

/// `base` are the configured settings of the port, or the defaults.
pub open spec fn configured(config: Config, port: Seq<char>, base: PortConfig) -> bool {
    if config.ports@.contains_key(port) {
        crate::config::same_port(base, config.ports@[port])
    } else {
        base.is_default()
    }
}

/// Put what is asked for in place of the base's settings.
pub fn merge_config(base: PortConfig, params: &ConfigurePortParams) -> (r: PortConfig)
    ensures
        merged(base, *params, r),
{
    let mut c = base;
    if let Some(b) = params.baudrate {
        c.baudrate = b;
    }
    if let Some(b) = params.data_bits {
        c.data_bits = b;
    }
    if let Some(p) = &params.parity {
        c.parity = copy_text(p.as_str());
    }
    if let Some(b) = params.stop_bits {
        c.stop_bits = b;
    }
    c
}

/// The settings to open a port with. The configured ones, or the defaults, are the base. A baud rate
/// of 0 is refused.
pub fn open_config(config: &Config, params: &ConfigurePortParams) -> (r: Result<PortConfig, String>)
    ensures
        r is Err <==> params.baudrate == Some(0u32),
        r matches Err(m) ==> m@ == "invalid baud rate: must be > 0"@,
        r matches Ok(c) ==> exists|base: PortConfig|
            {
                &&& #[trigger] configured(*config, params.port_name@, base)
                &&& merged(base, *params, c)
            },
{
    if let Some(b) = params.baudrate {
        if b == 0 {
            return Err(copy_text("invalid baud rate: must be > 0"));
        }
    }
    let base = config.port(params.port_name.as_str());
    let ghost b = base;
    let c = merge_config(base, params);
    proof {
        assert(configured(*config, params.port_name@, b));
    }
    Ok(c)
}

/// The answer to an opening.
pub open spec fn opened_spec(port: Seq<char>, config: PortConfig) -> Seq<char> {
    "Opened "@ + port + " ("@ + crate::text::dec(config.baudrate as nat) + "baud, "@
        + crate::text::dec(config.data_bits as nat) + seq![
        if config.parity@.len() > 0 {
            config.parity@[0]
        } else {
            'N'
        },
    ] + crate::text::dec(config.stop_bits as nat) + ")"@
}

/// The answer to an opening: the port and how it is set up, as in `9600baud, 8n1`.
pub fn opened_text(port: &str, config: &PortConfig) -> (r: String)
    ensures
        r@ == opened_spec(port@, *config),
{
    let mut s = copy_text("Opened ");
    s.append(port);
    s.append(" (");
    push_dec(&mut s, config.baudrate as u64);
    s.append("baud, ");
    push_dec(&mut s, config.data_bits as u64);
    let p = chars_of(config.parity.as_str());
    let ghost before = s@;
    s.push(
        if p.len() > 0 {
            p[0]
        } else {
            'N'
        },
    );
    proof {
        assert(s@ =~= before + seq![
            if config.parity@.len() > 0 {
                config.parity@[0]
            } else {
                'N'
            },
        ]);
    }
    push_dec(&mut s, config.stop_bits as u64);
    s.append(")");
    s
}

/// The answer to a closing.
pub fn closed_text(port: &str) -> (r: String)
    ensures
        r@ == "Closed "@ + port@,
{
    let mut s = copy_text("Closed ");
    s.append(port);
    s
}

// --- Writing ---

/// The text is marked as hex.
pub open spec fn is_hex(data: Seq<char>) -> bool {
    crate::text::has_prefix(data, "0x"@) || crate::text::has_prefix(data, "0X"@)
}

/// The bytes that a text asks to write: hex digits after `0x`, or the text itself in UTF-8. Nothing
/// is appended.
pub open spec fn payload_spec(data: Seq<char>) -> Result<Seq<u8>, Seq<char>> {
    if is_hex(data) {
        match crate::hex::hex_spec(data.skip(2)) {
            Ok(b) => Ok(b),
            Err(why) => Err("invalid hex: "@ + why),
        }
    } else {
        Ok(encode_utf8(data))
    }
}

/// The bytes of a text in UTF-8.
pub fn text_bytes(s: &str) -> (r: Vec<u8>)
    ensures
        r@ == encode_utf8(s@),
{
    let b = s.as_bytes();
    let mut v: Vec<u8> = Vec::new();
    v.extend_from_slice(b);
    proof {
        assert(v@ =~= b@);
    }
    v
}

/// What follows the mark of a hex text, if it is one.
pub fn hex_part(data: &str) -> (r: Option<String>)
    ensures
        r is Some <==> is_hex(data@),
        r matches Some(t) ==> t@ == data@.skip(2),
{
    if starts_with(data, "0x") || starts_with(data, "0X") {
        let v = chars_of(data);
        proof {
            reveal_strlit("0x");
            reveal_strlit("0X");
        }
        let t = text_between(&v, 2, v.len());
        proof {
            assert(t@ =~= data@.skip(2));
        }
        Some(t)
    } else {
        None
    }
}

/// The bytes that a text asks to write.
pub fn decode_payload(data: &str) -> (r: Result<Vec<u8>, String>)
    ensures
        crate::hex::bytes_outcome(r) == payload_spec(data@),
{
    match hex_part(data) {
        Some(hex) => match hex_decode(hex.as_str()) {
            Ok(b) => Ok(b),
            Err(why) => {
                let mut m = copy_text("invalid hex: ");
                m.append(why.as_str());
                Err(m)
            },
        },
        None => Ok(text_bytes(data)),
    }
}

/// The answer to a write.
pub fn wrote_text(len: usize, port: &str) -> (r: String)
    ensures
        r@ == "Wrote "@ + crate::text::dec(len as nat) + " bytes to "@ + port@,
{
    let mut s = copy_text("Wrote ");
    push_dec(&mut s, len as u64);
    s.append(" bytes to ");
    s.append(port);
    s
}

// --- Steps on a device ---

/// A step on a device.
pub enum DeviceOp {
    SetDtr(bool),
    SetRts(bool),
    Sleep(u64),
    Send(Vec<u8>),
}

/// A step on a device, its bytes as a sequence.
pub enum OpView {
    SetDtr(bool),
    SetRts(bool),
    Sleep(u64),
    Send(Seq<u8>),
}

impl View for DeviceOp {
    type V = OpView;

    open spec fn view(&self) -> OpView {
        match self {
            DeviceOp::SetDtr(b) => OpView::SetDtr(*b),
            DeviceOp::SetRts(b) => OpView::SetRts(*b),
            DeviceOp::Sleep(ms) => OpView::Sleep(*ms),
            DeviceOp::Send(b) => OpView::Send(b@),
        }
    }
}

/// The steps, their bytes as sequences.
pub open spec fn op_views(ops: Seq<DeviceOp>) -> Seq<OpView> {
    ops.map_values(|op: DeviceOp| op@)
}

/// How a level is shown.
pub open spec fn level_text(high: bool) -> Seq<char> {
    if high {
        "HIGH"@
    } else {
        "LOW"@
    }
}

/// How a step is shown.
pub open spec fn op_label(op: OpView) -> Seq<char> {
    match op {
        OpView::SetDtr(b) => "DTR="@ + level_text(b),
        OpView::SetRts(b) => "RTS="@ + level_text(b),
        OpView::Sleep(ms) => "delay "@ + crate::text::dec(ms as nat) + "ms"@,
        OpView::Send(b) => "write "@ + crate::text::dec(b.len()) + " bytes"@,
    }
}

/// How the steps are shown.
pub open spec fn op_labels(ops: Seq<OpView>) -> Seq<Seq<char>> {
    ops.map_values(|op: OpView| op_label(op))
}

impl DeviceOp {
    /// How the step is shown.
    pub fn label(&self) -> (r: String)
        ensures
            r@ == op_label(self@),
    {
        match self {
            DeviceOp::SetDtr(b) => {
                let mut s = copy_text("DTR=");
                s.append(
                    if *b {
                        "HIGH"
                    } else {
                        "LOW"
                    },
                );
                s
            },
            DeviceOp::SetRts(b) => {
                let mut s = copy_text("RTS=");
                s.append(
                    if *b {
                        "HIGH"
                    } else {
                        "LOW"
                    },
                );
                s
            },
            DeviceOp::Sleep(ms) => {
                let mut s = copy_text("delay ");
                push_dec(&mut s, *ms);
                s.append("ms");
                s
            },
            DeviceOp::Send(b) => {
                let mut s = copy_text("write ");
                push_dec(&mut s, b.len() as u64);
                s.append(" bytes");
                s
            },
        }
    }

    /// The message where the step of a macro failed.
    pub fn failure_text(&self, why: &str) -> (r: String)
        ensures
            r@ == (match self@ {
                OpView::SetDtr(_) => "DTR error: "@,
                OpView::SetRts(_) => "RTS error: "@,
                OpView::Sleep(_) => ""@,
                OpView::Send(_) => "write error: "@,
            }) + why@,
    {
        let mut s = copy_text(
            match self {
                DeviceOp::SetDtr(_) => "DTR error: ",
                DeviceOp::SetRts(_) => "RTS error: ",
                DeviceOp::Sleep(_) => "",
                DeviceOp::Send(_) => "write error: ",
            },
        );
        s.append(why);
        s
    }
}

/// How the steps are shown.
pub fn labels_of(ops: &Vec<DeviceOp>) -> (r: Vec<String>)
    ensures
        crate::text::texts(r@) == op_labels(op_views(ops@)),
{
    let mut out: Vec<String> = Vec::new();
    let mut i: usize = 0;
    while i < ops.len()
        invariant
            i <= ops@.len(),
            out@.len() == i,
            forall|k: int| 0 <= k < i ==> (#[trigger] out@[k])@ == op_label(ops@[k]@),
        decreases ops@.len() - i,
    {
        out.push(ops[i].label());
        i = i + 1;
    }
    proof {
        assert(crate::text::texts(out@) =~= op_labels(op_views(ops@)));
    }
    out
}

// --- Signals ---

/// The steps that set the lines that are given.
pub open spec fn signal_spec(dtr: Option<bool>, rts: Option<bool>) -> Seq<OpView> {
    (match dtr {
        Some(b) => seq![OpView::SetDtr(b)],
        None => Seq::empty(),
    }) + (match rts {
        Some(b) => seq![OpView::SetRts(b)],
        None => Seq::empty(),
    })
}

/// The steps that set DTR and RTS, DTR first. One of them must be given.
pub fn signal_ops(dtr: Option<bool>, rts: Option<bool>) -> (r: Result<Vec<DeviceOp>, String>)
    ensures
        r is Err <==> dtr is None && rts is None,
        r matches Err(m) ==> m@ == "at least one of dtr or rts must be specified"@,
        r matches Ok(ops) ==> op_views(ops@) == signal_spec(dtr, rts),
{
    if dtr.is_none() && rts.is_none() {
        return Err(copy_text("at least one of dtr or rts must be specified"));
    }
    let mut ops: Vec<DeviceOp> = Vec::new();
    if let Some(b) = dtr {
        ops.push(DeviceOp::SetDtr(b));
    }
    if let Some(b) = rts {
        ops.push(DeviceOp::SetRts(b));
    }
    proof {
        assert(op_views(ops@) =~= signal_spec(dtr, rts));
    }
    Ok(ops)
}

/// The message where a line could not be set.
pub fn signal_failure_text(op: &DeviceOp, why: &str) -> (r: String)
    ensures
        r@ == (match op@ {
            OpView::SetDtr(_) => "failed to set DTR: "@,
            _ => "failed to set RTS: "@,
        }) + why@,
{
    let mut s = copy_text(
        match op {
            DeviceOp::SetDtr(_) => "failed to set DTR: ",
            _ => "failed to set RTS: ",
        },
    );
    s.append(why);
    s
}

/// The answer to a signal.
pub fn signal_text(ops: &Vec<DeviceOp>, port: &str) -> (r: String)
    ensures
        r@ == "Set "@ + crate::text::joined(op_labels(op_views(ops@)), ", "@) + " on "@ + port@,
{
    let labels = labels_of(ops);
    let mut s = copy_text("Set ");
    let list = join(&labels, ", ");
    s.append(list.as_str());
    s.append(" on ");
    s.append(port);
    s
}

// --- Macros ---

/// What a step of a macro does. A hex text that cannot be decoded writes nothing.
pub open spec fn step_view(step: MacroStep) -> OpView {
    match step {
        MacroStep::Write { value } => OpView::Send(
            match payload_spec(value@) {
                Ok(b) => b,
                Err(_) => Seq::empty(),
            },
        ),
        MacroStep::Dtr { value } => OpView::SetDtr(value),
        MacroStep::Rts { value } => OpView::SetRts(value),
        MacroStep::Delay { ms } => OpView::Sleep(ms),
    }
}

/// What the steps of a macro do.
pub open spec fn step_views(steps: Seq<MacroStep>) -> Seq<OpView> {
    steps.map_values(|s: MacroStep| step_view(s))
}

/// What a step of a macro does.
pub fn step_op(step: &MacroStep) -> (r: DeviceOp)
    ensures
        r@ == step_view(*step),
{
    match step {
        MacroStep::Write { value } => DeviceOp::Send(
            match decode_payload(value.as_str()) {
                Ok(b) => b,
                Err(_) => Vec::new(),
            },
        ),
        MacroStep::Dtr { value } => DeviceOp::SetDtr(*value),
        MacroStep::Rts { value } => DeviceOp::SetRts(*value),
        MacroStep::Delay { ms } => DeviceOp::Sleep(*ms),
    }
}

/// The built-in macros: a reset by a DTR pulse, the way into the bootloader, and a break.
pub open spec fn builtin_spec(name: Seq<char>) -> Option<Seq<OpView>> {
    if name == "reset"@ {
        Some(seq![OpView::SetDtr(false), OpView::Sleep(100), OpView::SetDtr(true)])
    } else if name == "enter_bootloader"@ {
        Some(
            seq![
                OpView::SetRts(true),
                OpView::SetDtr(false),
                OpView::Sleep(50),
                OpView::SetDtr(true),
                OpView::Sleep(50),
                OpView::SetRts(false),
            ],
        )
    } else if name == "break"@ {
        Some(seq![OpView::Send(seq![0u8])])
    } else {
        None
    }
}

/// A built-in macro by its name.
pub fn builtin_macro(name: &str) -> (r: Option<Vec<DeviceOp>>)
    ensures
        match builtin_spec(name@) {
            Some(ops) => r is Some && op_views(r->0@) == ops,
            None => r is None,
        },
{
    let mut ops: Vec<DeviceOp> = Vec::new();
    if same_text(name, "reset") {
        ops.push(DeviceOp::SetDtr(false));
        ops.push(DeviceOp::Sleep(100));
        ops.push(DeviceOp::SetDtr(true));
    } else if same_text(name, "enter_bootloader") {
        ops.push(DeviceOp::SetRts(true));
        ops.push(DeviceOp::SetDtr(false));
        ops.push(DeviceOp::Sleep(50));
        ops.push(DeviceOp::SetDtr(true));
        ops.push(DeviceOp::Sleep(50));
        ops.push(DeviceOp::SetRts(false));
    } else if same_text(name, "break") {
        let mut b: Vec<u8> = Vec::new();
        b.push(0);
        proof {
            assert(b@ =~= seq![0u8]);
        }
        ops.push(DeviceOp::Send(b));
    } else {
        return None;
    }
    proof {
        assert(op_views(ops@) =~= builtin_spec(name@)->0);
    }
    Some(ops)
}

/// The names of the built-in macros.
pub open spec fn builtin_names() -> Seq<Seq<char>> {
    seq!["reset"@, "enter_bootloader"@, "break"@]
}

/// The message for a macro that there is not.
pub open spec fn unknown_macro_spec(name: Seq<char>, user: Seq<Seq<char>>) -> Seq<char> {
    "unknown macro '"@ + name + "'. Available: "@ + crate::text::joined(
        user + builtin_names(),
        ", "@,
    )
}

/// What a macro does. A user-defined macro hides a built-in one of its name.
pub open spec fn macro_spec(config: Config, name: Seq<char>) -> Result<Seq<OpView>, Seq<char>> {
    if config.macros@.contains_key(name) {
        Ok(step_views(config.macros@[name].steps@))
    } else {
        match builtin_spec(name) {
            Some(ops) => Ok(ops),
            None => Err(unknown_macro_spec(name, config.macros.names_list())),
        }
    }
}

/// What a macro does, or that there is none of its name.
pub fn resolve_macro(config: &Config, name: &str) -> (r: Result<Vec<DeviceOp>, String>)
    ensures
        match r {
            Ok(ops) => macro_spec(*config, name@) == Ok::<Seq<OpView>, Seq<char>>(op_views(ops@)),
            Err(m) => macro_spec(*config, name@) == Err::<Seq<OpView>, Seq<char>>(m@),
        },
{
    if let Some(user) = config.macros.get(name) {
        let mut ops: Vec<DeviceOp> = Vec::new();
        let mut i: usize = 0;
        while i < user.steps.len()
            invariant
                i <= user.steps@.len(),
                ops@.len() == i,
                forall|k: int| 0 <= k < i ==> (#[trigger] ops@[k])@ == step_view(user.steps@[k]),
            decreases user.steps@.len() - i,
        {
            ops.push(step_op(&user.steps[i]));
            i = i + 1;
        }
        proof {
            assert(op_views(ops@) =~= step_views(user.steps@));
        }
        return Ok(ops);
    }
    if let Some(ops) = builtin_macro(name) {
        return Ok(ops);
    }
    let mut names: Vec<String> = Vec::new();
    let n: usize = config.macros.len();
    let mut i: usize = 0;
    while i < n
        invariant
            i <= n,
            n == config.macros.names_list().len(),
            names@.len() == i,
            forall|k: int| 0 <= k < i ==> (#[trigger] names@[k])@ == config.macros.names_list()[k],
        decreases n - i,
    {
        names.push(copy_text(config.macros.name_at(i)));
        i = i + 1;
    }
    names.push(copy_text("reset"));
    names.push(copy_text("enter_bootloader"));
    names.push(copy_text("break"));
    proof {
        assert(crate::text::texts(names@) =~= config.macros.names_list() + builtin_names());
    }
    let mut m = copy_text("unknown macro '");
    m.append(name);
    m.append("'. Available: ");
    let list = join(&names, ", ");
    m.append(list.as_str());
    Err(m)
}

/// The line that a macro leaves in the buffer.
pub fn macro_log_text(name: &str, ops: &Vec<DeviceOp>) -> (r: String)
    ensures
        r@ == "━━━ MACRO '"@ + name@ + "' executed ("@ + crate::text::joined(
            op_labels(op_views(ops@)),
            " → "@,
        ) + ") ━━━"@,
{
    let labels = labels_of(ops);
    let mut s = copy_text("━━━ MACRO '");
    s.append(name);
    s.append("' executed (");
    let list = join(&labels, " → ");
    s.append(list.as_str());
    s.append(") ━━━");
    s
}

/// The answer to a macro.
pub fn macro_text(name: &str, port: &str, ops: &Vec<DeviceOp>) -> (r: String)
    ensures
        r@ == "Executed '"@ + name@ + "' on "@ + port@ + " ("@ + crate::text::dec(ops@.len())
            + " steps: "@ + crate::text::joined(op_labels(op_views(ops@)), " → "@) + ")"@,
{
    let labels = labels_of(ops);
    let mut s = copy_text("Executed '");
    s.append(name);
    s.append("' on ");
    s.append(port);
    s.append(" (");
    push_dec(&mut s, ops.len() as u64);
    s.append(" steps: ");
    let list = join(&labels, " → ");
    s.append(list.as_str());
    s.append(")");
    s
}

// --- Commands of a monitor window ---

/// What a monitor window asks for.
pub enum MonitorCommand {
    /// Steps on the device.
    Ops(Vec<DeviceOp>),
    /// Bytes to write.
    Data(Vec<u8>),
    /// Nothing.
    Ignore,
}

/// What a monitor window asks for, as sequences.
pub enum MonitorView {
    Ops(Seq<OpView>),
    Data(Seq<u8>),
    Ignore,
}

impl View for MonitorCommand {
    type V = MonitorView;

    open spec fn view(&self) -> MonitorView {
        match self {
            MonitorCommand::Ops(ops) => MonitorView::Ops(op_views(ops@)),
            MonitorCommand::Data(b) => MonitorView::Data(b@),
            MonitorCommand::Ignore => MonitorView::Ignore,
        }
    }
}

/// The signal of a monitor window.
pub open spec fn monitor_signal(s: Seq<char>) -> MonitorView {
    if s == "dtr:1"@ {
        MonitorView::Ops(seq![OpView::SetDtr(true)])
    } else if s == "dtr:0"@ {
        MonitorView::Ops(seq![OpView::SetDtr(false)])
    } else if s == "rts:1"@ {
        MonitorView::Ops(seq![OpView::SetRts(true)])
    } else if s == "rts:0"@ {
        MonitorView::Ops(seq![OpView::SetRts(false)])
    } else {
        MonitorView::Ignore
    }
}

/// The macro of a monitor window: a reset or the bootloader.
pub open spec fn monitor_macro(s: Seq<char>) -> MonitorView {
    if s == "reset"@ || s == "enter_bootloader"@ {
        MonitorView::Ops(builtin_spec(s)->0)
    } else {
        MonitorView::Ignore
    }
}

/// What a line from a monitor window asks for.
pub open spec fn monitor_spec(line: Seq<char>) -> MonitorView {
    if crate::text::has_prefix(line, "__macro:"@) {
        monitor_macro(crate::text::trimmed(line.skip("__macro:"@.len() as int)))
    } else if crate::text::has_prefix(line, "__signal:"@) {
        monitor_signal(crate::text::trimmed(line.skip("__signal:"@.len() as int)))
    } else if crate::text::has_prefix(line, "__data:"@) {
        MonitorView::Data(
            crate::hex::good_bytes(
                crate::hex::loose_pairs(encode_utf8(line.skip("__data:"@.len() as int))),
            ),
        )
    } else {
        MonitorView::Ignore
    }
}

/// The steps that consist of one.
fn single(op: DeviceOp) -> (r: MonitorCommand)
    ensures
        r@ == MonitorView::Ops(seq![op@]),
{
    let mut ops: Vec<DeviceOp> = Vec::new();
    ops.push(op);
    proof {
        assert(op_views(ops@) =~= seq![op@]);
    }
    MonitorCommand::Ops(ops)
}

/// What a line from a monitor window asks for.
pub fn parse_monitor_line(line: &str) -> (r: MonitorCommand)
    ensures
        r@ == monitor_spec(line@),
{
    if let Some(rest) = strip_prefix(line, "__macro:") {
        proof {
            assert(rest@ =~= line@.skip("__macro:"@.len() as int));
        }
        let name = trim(rest.as_str());
        if same_text(name.as_str(), "reset") || same_text(name.as_str(), "enter_bootloader") {
            if let Some(ops) = builtin_macro(name.as_str()) {
                return MonitorCommand::Ops(ops);
            }
        }
        return MonitorCommand::Ignore;
    }
    if let Some(rest) = strip_prefix(line, "__signal:") {
        proof {
            assert(rest@ =~= line@.skip("__signal:"@.len() as int));
        }
        let sig = trim(rest.as_str());
        if same_text(sig.as_str(), "dtr:1") {
            return single(DeviceOp::SetDtr(true));
        }
        if same_text(sig.as_str(), "dtr:0") {
            return single(DeviceOp::SetDtr(false));
        }
        if same_text(sig.as_str(), "rts:1") {
            return single(DeviceOp::SetRts(true));
        }
        if same_text(sig.as_str(), "rts:0") {
            return single(DeviceOp::SetRts(false));
        }
        return MonitorCommand::Ignore;
    }
    if let Some(rest) = strip_prefix(line, "__data:") {
        proof {
            assert(rest@ =~= line@.skip("__data:"@.len() as int));
        }
        return MonitorCommand::Data(decode_good_pairs(rest.as_str()));
    }
    MonitorCommand::Ignore
}

/// The ports that have a monitor window.
pub struct OpenMonitors {
    ports: NameMap<()>,
}

impl View for OpenMonitors {
    type V = Set<Seq<char>>;

    closed spec fn view(&self) -> Set<Seq<char>> {
        self.ports@.dom()
    }
}

impl OpenMonitors {
    pub fn new() -> (r: OpenMonitors)
        ensures
            r@ == Set::<Seq<char>>::empty(),
    {
        let r = OpenMonitors { ports: NameMap::new() };
        proof {
            assert(r@ =~= Set::<Seq<char>>::empty());
        }
        r
    }

    /// Refuse a second window for a port.
    pub fn check_open(&self, port: &str) -> (r: Result<(), String>)
        ensures
            r is Err <==> self@.contains(port@),
            r matches Err(m) ==> m@ == "monitor already open for '"@ + port@ + "'"@,
    {
        if self.ports.contains_key(port) {
            let mut m = copy_text("monitor already open for '");
            m.append(port);
            m.append("'");
            Err(m)
        } else {
            Ok(())
        }
    }

    /// A window was opened for a port.
    pub fn opened(&mut self, port: &str) -> (r: String)
        ensures
            final(self)@ == old(self)@.insert(port@),
            r@ == "Monitor opened for "@ + port@,
    {
        self.ports.insert(port, ());
        proof {
            assert(self@ =~= old(self)@.insert(port@));
        }
        let mut m = copy_text("Monitor opened for ");
        m.append(port);
        m
    }

    /// Close the window of a port.
    pub fn close(&mut self, port: &str) -> (r: Result<String, String>)
        ensures
            final(self)@ == old(self)@.remove(port@),
            r is Ok <==> old(self)@.contains(port@),
            r matches Ok(m) ==> m@ == "Monitor closed for "@ + port@,
            r matches Err(m) ==> m@ == "no monitor open for '"@ + port@ + "'"@,
    {
        let was = self.ports.remove(port);
        proof {
            assert(self@ =~= old(self)@.remove(port@));
        }
        match was {
            Some(_) => {
                let mut m = copy_text("Monitor closed for ");
                m.append(port);
                Ok(m)
            },
            None => {
                let mut m = copy_text("no monitor open for '");
                m.append(port);
                m.append("'");
                Err(m)
            },
        }
    }
}

/// Tells a monitor window when the number of stored lines has changed.
pub struct Notifier {
    pub last_count: u64,
}

impl Notifier {
    pub fn new() -> (r: Notifier)
        ensures
            r.last_count == 0,
    {
        Notifier { last_count: 0 }
    }

    /// Whether the window is to be told, the number being `count` now.
    pub fn changed(&mut self, count: u64) -> (r: bool)
        ensures
            r == (count != old(self).last_count),
            final(self).last_count == count,
    {
        let r: bool = count != self.last_count;
        self.last_count = count;
        r
    }
}

// --- Laws ---

/// The bytes that a monitor window sends arrive as they are.
pub proof fn law_monitor_data_arrives(bytes: Seq<u8>)
    ensures
        monitor_spec("__data:"@ + crate::hex::hex_text(bytes)) == MonitorView::Data(bytes),
{
    reveal_strlit("__data:");
    reveal_strlit("__macro:");
    reveal_strlit("__signal:");
    let line = "__data:"@ + crate::hex::hex_text(bytes);
    assert(line.subrange(0, 7) =~= "__data:"@);
    assert(line.skip(7) =~= crate::hex::hex_text(bytes));
    assert(line[2] == 'd');
    assert(!crate::text::has_prefix(line, "__macro:"@)) by {
        if crate::text::has_prefix(line, "__macro:"@) {
            assert(line.subrange(0, 8)[2] == "__macro:"@[2]);
        }
    }
    assert(!crate::text::has_prefix(line, "__signal:"@)) by {
        if crate::text::has_prefix(line, "__signal:"@) {
            assert(line.subrange(0, 9)[2] == "__signal:"@[2]);
        }
    }
    crate::hex::law_hex_round_trip(bytes);
}

/// A text that begins and ends with no white space stays as it is when it is trimmed.
proof fn nothing_to_trim(s: Seq<char>)
    requires
        s.len() > 0,
        !crate::text::is_white(s[0]),
        !crate::text::is_white(s.last()),
    ensures
        crate::text::trimmed(s) == s,
{
}

/// The levels that a monitor window asks for arrive as they are.
pub proof fn law_monitor_signals_arrive(on: bool)
    ensures
        monitor_spec(crate::monitor::dtr_spec(on)) == MonitorView::Ops(seq![OpView::SetDtr(on)]),
        monitor_spec(crate::monitor::rts_spec(on)) == MonitorView::Ops(seq![OpView::SetRts(on)]),
{
    reveal_strlit("__macro:");
    reveal_strlit("__signal:");
    reveal_strlit("__signal:dtr:1");
    reveal_strlit("__signal:dtr:0");
    reveal_strlit("__signal:rts:1");
    reveal_strlit("__signal:rts:0");
    reveal_strlit("dtr:1");
    reveal_strlit("dtr:0");
    reveal_strlit("rts:1");
    reveal_strlit("rts:0");
    let dtr = crate::monitor::dtr_spec(on);
    let rts = crate::monitor::rts_spec(on);
    assert forall|line: Seq<char>| line == dtr || line == rts implies {
        &&& !crate::text::has_prefix(line, "__macro:"@)
        &&& #[trigger] crate::text::has_prefix(line, "__signal:"@)
    } by {
        assert(line.subrange(0, 8)[2] != "__macro:"@[2]);
        assert(line.subrange(0, 9) =~= "__signal:"@);
    }
    assert(crate::text::has_prefix(dtr, "__signal:"@) && crate::text::has_prefix(rts, "__signal:"@));
    let d = if on { "dtr:1"@ } else { "dtr:0"@ };
    let r = if on { "rts:1"@ } else { "rts:0"@ };
    assert(dtr.skip(9) =~= d);
    assert(rts.skip(9) =~= r);
    nothing_to_trim(d);
    nothing_to_trim(r);
    assert("dtr:1"@[4] != "dtr:0"@[4]);
    assert("rts:1"@[4] != "rts:0"@[4]);
    assert("rts:1"@[0] != "dtr:1"@[0]);
    assert("rts:0"@[0] != "dtr:0"@[0]);
}

/// The macros that a monitor window asks for arrive as the built-in ones.
pub proof fn law_monitor_macros_arrive()
    ensures
        monitor_spec(crate::monitor::reset_spec()) == MonitorView::Ops(builtin_spec("reset"@)->0),
        monitor_spec(crate::monitor::bootloader_spec()) == MonitorView::Ops(
            builtin_spec("enter_bootloader"@)->0,
        ),
{
    reveal_strlit("__macro:");
    reveal_strlit("reset");
    reveal_strlit("enter_bootloader");
    reveal_strlit("__macro:reset");
    reveal_strlit("__macro:enter_bootloader");
    let a = crate::monitor::reset_spec();
    let b = crate::monitor::bootloader_spec();
    assert(a.subrange(0, 8) =~= "__macro:"@);
    assert(b.subrange(0, 8) =~= "__macro:"@);
    assert(crate::text::has_prefix(a, "__macro:"@) && crate::text::has_prefix(b, "__macro:"@));
    assert(a.skip(8) =~= "reset"@);
    assert(b.skip(8) =~= "enter_bootloader"@);
    nothing_to_trim("reset"@);
    nothing_to_trim("enter_bootloader"@);
}

/// Bytes in hex after `0x` are written as they are.
pub proof fn law_hex_payload(bytes: Seq<u8>)
    ensures
        payload_spec("0x"@ + crate::hex::hex_text(bytes)) == Ok::<Seq<u8>, Seq<char>>(bytes),
{
    reveal_strlit("0x");
    let data = "0x"@ + crate::hex::hex_text(bytes);
    assert(data.subrange(0, 2) =~= "0x"@);
    assert(data.skip(2) =~= crate::hex::hex_text(bytes));
    crate::hex::law_hex_round_trip(bytes);
}

/// A text that does not begin with `0x` is written as its UTF-8 bytes, with nothing appended.
pub proof fn law_text_payload(data: Seq<char>)
    requires
        !is_hex(data),
    ensures
        payload_spec(data) == Ok::<Seq<u8>, Seq<char>>(encode_utf8(data)),
{
}

/// A user-defined macro hides a built-in one of its name; without one the built-in macro runs.
pub proof fn law_user_macro_first(config: Config, name: Seq<char>)
    requires
        builtin_spec(name) is Some,
    ensures
        config.macros@.contains_key(name) ==> macro_spec(config, name) == Ok::<
            Seq<OpView>,
            Seq<char>,
        >(step_views(config.macros@[name].steps@)),
        !config.macros@.contains_key(name) ==> macro_spec(config, name) == Ok::<
            Seq<OpView>,
            Seq<char>,
        >(builtin_spec(name)->0),
{
}

/// What a device has seen: the levels of its two lines, the bytes that it got and the time that has
/// passed.
pub struct Seen {
    pub dtr: bool,
    pub rts: bool,
    pub bytes: Seq<u8>,
    pub ms: nat,
}

/// What a device has seen once the steps have been taken.
pub open spec fn played(before: Seen, ops: Seq<OpView>) -> Seen
    decreases ops.len(),
{
    if ops.len() == 0 {
        before
    } else {
        let seen = played(before, ops.drop_last());
        match ops.last() {
            OpView::SetDtr(b) => Seen { dtr: b, ..seen },
            OpView::SetRts(b) => Seen { rts: b, ..seen },
            OpView::Sleep(ms) => Seen { ms: seen.ms + ms as nat, ..seen },
            OpView::Send(b) => Seen { bytes: seen.bytes + b, ..seen },
        }
    }
}

/// Steps are taken one after the other.
proof fn played_joined(before: Seen, a: Seq<OpView>, b: Seq<OpView>)
    ensures
        played(before, a + b) == played(played(before, a), b),
    decreases b.len(),
{
    if b.len() == 0 {
        assert(a + b =~= a);
    } else {
        played_joined(before, a, b.drop_last());
        assert((a + b).drop_last() =~= a + b.drop_last());
    }
}

/// One step.
proof fn played_one(before: Seen, op: OpView)
    ensures
        played(before, seq![op]) == (match op {
            OpView::SetDtr(b) => Seen { dtr: b, ..before },
            OpView::SetRts(b) => Seen { rts: b, ..before },
            OpView::Sleep(ms) => Seen { ms: before.ms + ms as nat, ..before },
            OpView::Send(b) => Seen { bytes: before.bytes + b, ..before },
        }),
{
    assert(seq![op].drop_last() =~= Seq::empty());
    assert(played(before, seq![op].drop_last()) == before);
}

/// A signal sets the lines that are given to the levels that are given and leaves the other line as
/// it is. It sends nothing and takes no time. Setting one line is what a monitor window asks for with
/// its key, and setting both is setting DTR and then RTS.
pub proof fn law_signals_set(before: Seen, dtr: Option<bool>, rts: Option<bool>, on: bool)
    ensures
        ({
            let after = played(before, signal_spec(dtr, rts));
            &&& after.dtr == (if dtr is Some {
                dtr->0
            } else {
                before.dtr
            })
            &&& after.rts == (if rts is Some {
                rts->0
            } else {
                before.rts
            })
            &&& after.bytes == before.bytes
            &&& after.ms == before.ms
        }),
        signal_spec(dtr, rts) == signal_spec(dtr, None) + signal_spec(None, rts),
        signal_spec(dtr, rts).len() == (if dtr is Some {
            1nat
        } else {
            0
        }) + (if rts is Some {
            1nat
        } else {
            0
        }),
        monitor_spec(crate::monitor::dtr_spec(on)) == MonitorView::Ops(
            signal_spec(Some(on), None),
        ),
        monitor_spec(crate::monitor::rts_spec(on)) == MonitorView::Ops(
            signal_spec(None, Some(on)),
        ),
        signal_spec(Some(on), None) == seq![OpView::SetDtr(on)],
        signal_spec(None, Some(on)) == seq![OpView::SetRts(on)],
{
    if let Some(d) = dtr {
        played_one(before, OpView::SetDtr(d));
        assert(signal_spec(dtr, None) =~= seq![OpView::SetDtr(d)]);
        if let Some(r) = rts {
            played_joined(before, seq![OpView::SetDtr(d)], seq![OpView::SetRts(r)]);
            played_one(played(before, seq![OpView::SetDtr(d)]), OpView::SetRts(r));
        } else {
            assert(signal_spec(dtr, rts) =~= seq![OpView::SetDtr(d)]);
        }
    } else {
        if let Some(r) = rts {
            played_one(before, OpView::SetRts(r));
            assert(signal_spec(dtr, rts) =~= seq![OpView::SetRts(r)]);
        }
    }
    assert(signal_spec(dtr, rts) =~= signal_spec(dtr, None) + signal_spec(None, rts));
    assert(signal_spec(Some(on), None) =~= seq![OpView::SetDtr(on)]);
    assert(signal_spec(None, Some(on)) =~= seq![OpView::SetRts(on)]);
    law_monitor_signals_arrive(on);
}

/// A user-defined macro does what its steps say, one for one: a step sets the line to the level that
/// it names, waits for the time that it names, or sends the bytes of its text. The text is sent as it
/// is, or as the bytes that its hex digits stand for; where they stand for none, nothing is sent.
pub proof fn law_user_macro_steps(config: Config, name: Seq<char>)
    requires
        config.macros@.contains_key(name),
    ensures
        ({
            let steps = config.macros@[name].steps@;
            &&& macro_spec(config, name) matches Ok(ops)
            &&& ops.len() == steps.len()
            &&& forall|i: int|
                0 <= i < steps.len() ==> match #[trigger] steps[i] {
                    MacroStep::Dtr { value } => ops[i] == OpView::SetDtr(value),
                    MacroStep::Rts { value } => ops[i] == OpView::SetRts(value),
                    MacroStep::Delay { ms } => ops[i] == OpView::Sleep(ms),
                    MacroStep::Write { value } => {
                        &&& !is_hex(value@) ==> ops[i] == OpView::Send(encode_utf8(value@))
                        &&& is_hex(value@) ==> match crate::hex::hex_spec(value@.skip(2)) {
                            Ok(bytes) => ops[i] == OpView::Send(bytes),
                            Err(_) => ops[i] == OpView::Send(Seq::empty()),
                        }
                    },
                }
        }),
{
}

/// A user-defined macro leaves the lines at the levels of its steps: its last DTR step decides DTR and
/// its last RTS step decides RTS, and the waits add up.
pub proof fn law_user_macro_effect(before: Seen, steps: Seq<MacroStep>, step: MacroStep)
    ensures
        ({
            let seen = played(before, step_views(steps));
            let after = played(before, step_views(steps.push(step)));
            match step {
                MacroStep::Dtr { value } => after == (Seen { dtr: value, ..seen }),
                MacroStep::Rts { value } => after == (Seen { rts: value, ..seen }),
                MacroStep::Delay { ms } => after == (Seen { ms: seen.ms + ms as nat, ..seen }),
                MacroStep::Write { value } => {
                    &&& after.dtr == seen.dtr && after.rts == seen.rts && after.ms == seen.ms
                    &&& !is_hex(value@) ==> after.bytes == seen.bytes + encode_utf8(value@)
                },
            }
        }),
{
    assert(step_views(steps.push(step)).drop_last() =~= step_views(steps));
    assert(step_views(steps.push(step)).last() == step_view(step));
}

/// A user-defined macro with the steps of a built-in one does what the built-in one does.
pub proof fn law_built_in_as_steps(steps: Seq<MacroStep>)
    ensures
        steps =~= seq![
            MacroStep::Dtr { value: false },
            MacroStep::Delay { ms: 100 },
            MacroStep::Dtr { value: true },
        ] ==> builtin_spec("reset"@) == Some(step_views(steps)),
        steps =~= seq![
            MacroStep::Rts { value: true },
            MacroStep::Dtr { value: false },
            MacroStep::Delay { ms: 50 },
            MacroStep::Dtr { value: true },
            MacroStep::Delay { ms: 50 },
            MacroStep::Rts { value: false },
        ] ==> builtin_spec("enter_bootloader"@) == Some(step_views(steps)),
{
    reveal_strlit("reset");
    reveal_strlit("enter_bootloader");
    assert("reset"@.len() != "enter_bootloader"@.len());
    if steps =~= seq![
        MacroStep::Dtr { value: false },
        MacroStep::Delay { ms: 100 },
        MacroStep::Dtr { value: true },
    ] {
        assert(builtin_spec("reset"@)->0 =~= step_views(steps));
    }
    if steps =~= seq![
        MacroStep::Rts { value: true },
        MacroStep::Dtr { value: false },
        MacroStep::Delay { ms: 50 },
        MacroStep::Dtr { value: true },
        MacroStep::Delay { ms: 50 },
        MacroStep::Rts { value: false },
    ] {
        assert(builtin_spec("enter_bootloader"@)->0 =~= step_views(steps));
    }
}

/// What the built-in macros do to any device. A reset pulls DTR low, waits for a tenth of a second and
/// lets DTR go, and leaves RTS alone. The way into the bootloader raises RTS, pulls DTR low for a
/// twentieth of a second, lets it go and drops RTS as long after that. A break sends one zero byte and
/// touches neither line.
pub proof fn law_built_in_macros(before: Seen)
    ensures
        ({
            let ops = builtin_spec("reset"@)->0;
            let low = played(before, ops.take(1));
            let waited = played(before, ops.take(2));
            let after = played(before, ops);
            &&& builtin_spec("reset"@) is Some
            &&& ops.len() == 3
            &&& low == (Seen { dtr: false, ..before })
            &&& waited == (Seen { dtr: false, ms: before.ms + 100, ..before })
            &&& after == (Seen { dtr: true, ms: before.ms + 100, ..before })
        }),
        ({
            let ops = builtin_spec("enter_bootloader"@)->0;
            &&& builtin_spec("enter_bootloader"@) is Some
            &&& ops.len() == 6
            &&& played(before, ops.take(1)) == (Seen { rts: true, ..before })
            &&& played(before, ops.take(2)) == (Seen { dtr: false, rts: true, ..before })
            &&& played(before, ops.take(4)) == (Seen {
                dtr: true,
                rts: true,
                ms: before.ms + 50,
                ..before
            })
            &&& played(before, ops) == (Seen {
                dtr: true,
                rts: false,
                ms: before.ms + 100,
                ..before
            })
        }),
        ({
            let ops = builtin_spec("break"@)->0;
            &&& builtin_spec("break"@) is Some
            &&& played(before, ops) == (Seen { bytes: before.bytes.push(0), ..before })
        }),
{
    reveal_strlit("reset");
    reveal_strlit("enter_bootloader");
    reveal_strlit("break");
    assert("reset"@[0] != "break"@[0]);
    assert("reset"@.len() != "enter_bootloader"@.len());
    assert("break"@.len() != "enter_bootloader"@.len());
    let r = builtin_spec("reset"@)->0;
    assert(r.take(1) =~= seq![OpView::SetDtr(false)]);
    played_one(before, OpView::SetDtr(false));
    let r1 = played(before, r.take(1));
    assert(r.take(2) =~= r.take(1) + seq![OpView::Sleep(100)]);
    played_joined(before, r.take(1), seq![OpView::Sleep(100)]);
    played_one(r1, OpView::Sleep(100));
    let r2 = played(before, r.take(2));
    assert(r =~= r.take(2) + seq![OpView::SetDtr(true)]);
    played_joined(before, r.take(2), seq![OpView::SetDtr(true)]);
    played_one(r2, OpView::SetDtr(true));
    let e = builtin_spec("enter_bootloader"@)->0;
    assert(e.take(1) =~= seq![OpView::SetRts(true)]);
    played_one(before, OpView::SetRts(true));
    let e1 = played(before, e.take(1));
    assert(e.take(2) =~= e.take(1) + seq![OpView::SetDtr(false)]);
    played_joined(before, e.take(1), seq![OpView::SetDtr(false)]);
    played_one(e1, OpView::SetDtr(false));
    let e2 = played(before, e.take(2));
    assert(e.take(3) =~= e.take(2) + seq![OpView::Sleep(50)]);
    played_joined(before, e.take(2), seq![OpView::Sleep(50)]);
    played_one(e2, OpView::Sleep(50));
    let e3 = played(before, e.take(3));
    assert(e.take(4) =~= e.take(3) + seq![OpView::SetDtr(true)]);
    played_joined(before, e.take(3), seq![OpView::SetDtr(true)]);
    played_one(e3, OpView::SetDtr(true));
    let e4 = played(before, e.take(4));
    assert(e.take(5) =~= e.take(4) + seq![OpView::Sleep(50)]);
    played_joined(before, e.take(4), seq![OpView::Sleep(50)]);
    played_one(e4, OpView::Sleep(50));
    let e5 = played(before, e.take(5));
    assert(e =~= e.take(5) + seq![OpView::SetRts(false)]);
    played_joined(before, e.take(5), seq![OpView::SetRts(false)]);
    played_one(e5, OpView::SetRts(false));
    played_one(before, OpView::Send(seq![0u8]));
    assert(builtin_spec("break"@)->0 =~= seq![OpView::Send(seq![0u8])]);
    assert(before.bytes + seq![0u8] =~= before.bytes.push(0));
}

/// There is a macro of a name exactly if the user defined one or it is one of the three built-in
/// ones. Where there is none, the message says the name and then all the names that there are, the
/// user's first.
pub proof fn law_unknown_macro(config: Config, name: Seq<char>)
    ensures
        macro_spec(config, name) is Ok <==> config.macros@.contains_key(name) || name == "reset"@
            || name == "enter_bootloader"@ || name == "break"@,
        macro_spec(config, name) matches Err(m) ==> m == "unknown macro '"@ + name
            + "'. Available: "@ + crate::text::joined(
            config.macros.names_list() + seq!["reset"@, "enter_bootloader"@, "break"@],
            ", "@,
        ),
{
}

/// A device gets the steps one for one, with their levels, times and bytes.
pub proof fn law_steps_as_they_are(ops: Seq<DeviceOp>)
    ensures
        op_views(ops).len() == ops.len(),
        forall|i: int|
            0 <= i < ops.len() ==> match #[trigger] ops[i] {
                DeviceOp::SetDtr(b) => op_views(ops)[i] == OpView::SetDtr(b),
                DeviceOp::SetRts(b) => op_views(ops)[i] == OpView::SetRts(b),
                DeviceOp::Sleep(ms) => op_views(ops)[i] == OpView::Sleep(ms),
                DeviceOp::Send(b) => op_views(ops)[i] == OpView::Send(b@),
            },
{
}

/// A step is shown by what it does: the line and its level, the wait in milliseconds, or the number of
/// bytes. The steps are shown in their order.
pub proof fn law_step_labels(ops: Seq<OpView>)
    ensures
        op_labels(ops).len() == ops.len(),
        forall|i: int|
            0 <= i < ops.len() ==> match #[trigger] ops[i] {
                OpView::SetDtr(true) => op_labels(ops)[i] == "DTR="@ + "HIGH"@,
                OpView::SetDtr(false) => op_labels(ops)[i] == "DTR="@ + "LOW"@,
                OpView::SetRts(true) => op_labels(ops)[i] == "RTS="@ + "HIGH"@,
                OpView::SetRts(false) => op_labels(ops)[i] == "RTS="@ + "LOW"@,
                OpView::Sleep(ms) => op_labels(ops)[i] == "delay "@ + crate::text::dec(ms as nat)
                    + "ms"@,
                OpView::Send(b) => op_labels(ops)[i] == "write "@ + crate::text::dec(b.len())
                    + " bytes"@,
            },
{
}

/// The settings that a port is opened with. Each of the four that a request may name is the
/// requested one where it is named. All others, and those not named, are the configured ones, and
/// where the port is not configured the defaults.
pub proof fn law_open_settings(
    config: Config,
    params: ConfigurePortParams,
    base: PortConfig,
    c: PortConfig,
)
    requires
        configured(config, params.port_name@, base),
        merged(base, params, c),
    ensures
        params.baudrate matches Some(b) ==> c.baudrate == b,
        params.data_bits matches Some(b) ==> c.data_bits == b,
        params.parity matches Some(p) ==> c.parity@ == p@,
        params.stop_bits matches Some(b) ==> c.stop_bits == b,
        config.ports@.contains_key(params.port_name@) ==> {
            let own = config.ports@[params.port_name@];
            &&& params.baudrate is None ==> c.baudrate == own.baudrate
            &&& params.data_bits is None ==> c.data_bits == own.data_bits
            &&& params.parity is None ==> c.parity@ == own.parity@
            &&& params.stop_bits is None ==> c.stop_bits == own.stop_bits
            &&& c.flow_control@ == own.flow_control@
            &&& c.delimiter == own.delimiter
            &&& c.auto_reconnect == own.auto_reconnect
            &&& c.reconnect_interval_ms == own.reconnect_interval_ms
            &&& c.reconnect_max_backoff_ms == own.reconnect_max_backoff_ms
            &&& c.max_buffer_lines == own.max_buffer_lines
        },
        !config.ports@.contains_key(params.port_name@) ==> {
            &&& params.baudrate is None ==> c.baudrate == 115200
            &&& params.data_bits is None ==> c.data_bits == 8
            &&& params.parity is None ==> c.parity@ == "none"@
            &&& params.stop_bits is None ==> c.stop_bits == 1
            &&& c.flow_control@ == "none"@
            &&& c.auto_reconnect
        },
{
}

/// The answer to an opening names the port, the baud rate and the frame.
pub proof fn law_opened_answer(port: Seq<char>, config: PortConfig)
    ensures
        config.parity@.len() > 0 ==> opened_spec(port, config) == "Opened "@ + port + " ("@
            + crate::text::dec(config.baudrate as nat) + "baud, "@ + crate::text::dec(
            config.data_bits as nat,
        ) + config.parity@.take(1) + crate::text::dec(config.stop_bits as nat) + ")"@,
        config.parity@.len() == 0 ==> opened_spec(port, config) == "Opened "@ + port + " ("@
            + crate::text::dec(config.baudrate as nat) + "baud, "@ + crate::text::dec(
            config.data_bits as nat,
        ) + seq!['N'] + crate::text::dec(config.stop_bits as nat) + ")"@,
{
    if config.parity@.len() > 0 {
        assert(config.parity@.take(1) =~= seq![config.parity@[0]]);
    }
}

/// A text is marked as hex by `0x` or `0X` in front and by nothing else. A marked text gives the bytes
/// that its digits stand for, whichever mark it has, and an unmarked one its own bytes. Only a marked
/// text can be refused, and then the message says so.
pub proof fn law_payload_kinds(data: Seq<char>, digits: Seq<char>)
    ensures
        is_hex(data) <==> data.len() >= 2 && data[0] == '0' && (data[1] == 'x' || data[1] == 'X'),
        payload_spec(seq!['0', 'x'] + digits) == payload_spec(seq!['0', 'X'] + digits),
        match crate::hex::hex_spec(digits) {
            Ok(bytes) => payload_spec(seq!['0', 'x'] + digits) == Ok::<Seq<u8>, Seq<char>>(bytes),
            Err(why) => payload_spec(seq!['0', 'x'] + digits) == Err::<Seq<u8>, Seq<char>>(
                "invalid hex: "@ + why,
            ),
        },
        !is_hex(data) ==> payload_spec(data) == Ok::<Seq<u8>, Seq<char>>(encode_utf8(data)),
{
    reveal_strlit("0x");
    reveal_strlit("0X");
    let small = seq!['0', 'x'] + digits;
    let large = seq!['0', 'X'] + digits;
    assert(small.skip(2) =~= digits);
    assert(large.skip(2) =~= digits);
    assert(small.subrange(0, 2) =~= "0x"@);
    assert(large.subrange(0, 2) =~= "0X"@);
    if data.len() >= 2 {
        assert(data.subrange(0, 2)[0] == data[0]);
        assert(data.subrange(0, 2)[1] == data[1]);
        if data[0] == '0' && data[1] == 'x' {
            assert(data.subrange(0, 2) =~= "0x"@);
        }
        if data[0] == '0' && data[1] == 'X' {
            assert(data.subrange(0, 2) =~= "0X"@);
        }
    }
}

/// A line of a monitor window that begins with none of the three marks asks for nothing. So does a
/// signal other than the four, and a macro other than the two.
pub proof fn law_monitor_ignores(line: Seq<char>, rest: Seq<char>)
    ensures
        !crate::text::has_prefix(line, "__macro:"@) && !crate::text::has_prefix(line, "__signal:"@)
            && !crate::text::has_prefix(line, "__data:"@) ==> monitor_spec(line)
            == MonitorView::Ignore,
        ({
            let name = crate::text::trimmed(rest);
            &&& name != "reset"@ && name != "enter_bootloader"@ ==> monitor_spec(
                "__macro:"@ + rest,
            ) == MonitorView::Ignore
            &&& name != "dtr:1"@ && name != "dtr:0"@ && name != "rts:1"@ && name != "rts:0"@
                ==> monitor_spec("__signal:"@ + rest) == MonitorView::Ignore
        }),
{
    reveal_strlit("__macro:");
    reveal_strlit("__signal:");
    let m = "__macro:"@ + rest;
    let s = "__signal:"@ + rest;
    assert(m.subrange(0, 8) =~= "__macro:"@);
    assert(m.skip(8) =~= rest);
    assert(s.subrange(0, 9) =~= "__signal:"@);
    assert(s.skip(9) =~= rest);
    assert(s.subrange(0, 8)[2] == 's');
    assert("__macro:"@[2] == 'm');
}

/// What a monitor window asks for is seen as it is: its steps one for one, and its bytes.
pub proof fn law_monitor_views(ops: Vec<DeviceOp>, bytes: Vec<u8>)
    ensures
        MonitorCommand::Ops(ops)@ == MonitorView::Ops(op_views(ops@)),
        MonitorCommand::Data(bytes)@ == MonitorView::Data(bytes@),
        MonitorCommand::Ignore@ == MonitorView::Ignore,
{
}

} // verus!

//! The managed ports: which commands are served, which are refused, and how a device is set up.
use vstd::prelude::*;

use crate::config::PortConfig;
use crate::names::NameMap;
use crate::reader::ConnectionState;
use crate::text::{copy_text, same_text, sanitize};

verus! {

/// Info about a managed port.
#[derive(Debug, Clone)]
pub struct PortInfo {
    pub name: String,
    pub state: ConnectionState,
    pub total_lines: u64,
}

/// Errors from the port manager.
#[derive(Debug, Clone)]
pub enum PortManagerError {
    NotFound(String),
    AlreadyManaged(String),
    Serial(String),
    NoHardware(String),
}

impl PortManagerError {
    /// The message for the user.
    pub open spec fn text(self) -> Seq<char> {
        match self {
            PortManagerError::NotFound(name) => "port '"@ + name@ + "' not found"@,
            PortManagerError::AlreadyManaged(name) => "port '"@ + name@ + "' already managed"@,
            PortManagerError::Serial(why) => "serial port error: "@ + why@,
            PortManagerError::NoHardware(name) => "port '"@ + name@
                + "' has no hardware handle (mock port)"@,
        }
    }

    pub fn message(&self) -> (r: String)
        ensures
            r@ == self.text(),
    {
        let (start, middle, end) = match self {
            PortManagerError::NotFound(name) => ("port '", name, "' not found"),
            PortManagerError::AlreadyManaged(name) => ("port '", name, "' already managed"),
            PortManagerError::Serial(why) => ("serial port error: ", why, ""),
            PortManagerError::NoHardware(name) => (
                "port '",
                name,
                "' has no hardware handle (mock port)",
            ),
        };
        let mut s = copy_text(start);
        s.append(middle.as_str());
        s.append(end);
        proof {
            reveal_strlit("");
            assert(s@ =~= self.text());
        }
        s
    }
}

/// What the port manager is asked for.
pub enum PortCommand {
    /// Open a serial device.
    OpenReal { name: String },
    /// Open a serial device, in the place of what is managed under its name.
    Reconfigure { name: String },
    /// Manage a source that is open already.
    OpenMock { name: String },
    Close { name: String },
    CloseWithConfig { name: String },
    List,
    GetState { name: String },
    GetStorage { name: String },
    GetSerialPort { name: String },
    Write { name: String },
}

/// How the port manager serves a command.
pub enum PortAction {
    /// Answer with the error.
    Refuse(PortManagerError),
    /// Open the device and what it needs, and enrol the port when all is there.
    OpenDevice,
    /// The port is not managed any more: shut its reader down, and then open the device anew and
    /// enrol it.
    Replace(PortConfig),
    /// Enrol the port.
    Enrol,
    /// The port is not managed any more: shut its reader down. Its settings can be used to reopen
    /// it.
    ShutDown(PortConfig),
    /// Report on the ports in this order.
    Report(Vec<String>),
    /// Serve the command with the port's resources.
    Serve,
}

/// A managed port.
pub struct PortRecord {
    pub config: PortConfig,
    /// The port has a device that can be written to and signalled.
    pub hardware: bool,
}

/// The ports that are managed.
pub struct PortRegistry {
    ports: NameMap<PortRecord>,
}

impl View for PortRegistry {
    type V = Map<Seq<char>, PortRecord>;

    closed spec fn view(&self) -> Map<Seq<char>, PortRecord> {
        self.ports@
    }
}

impl PortCommand {
    /// The port that the command is about.
    pub open spec fn target(self) -> Option<Seq<char>> {
        match self {
            PortCommand::OpenReal { name } => Some(name@),
            PortCommand::Reconfigure { name } => Some(name@),
            PortCommand::OpenMock { name } => Some(name@),
            PortCommand::Close { name } => Some(name@),
            PortCommand::CloseWithConfig { name } => Some(name@),
            PortCommand::List => None,
            PortCommand::GetState { name } => Some(name@),
            PortCommand::GetStorage { name } => Some(name@),
            PortCommand::GetSerialPort { name } => Some(name@),
            PortCommand::Write { name } => Some(name@),
        }
    }

    /// The command opens a port that is not managed.
    pub open spec fn opens(self) -> bool {
        self is OpenReal || self is OpenMock
    }

    /// The command ends the management of the port that it names.
    pub open spec fn ends(self) -> bool {
        self.closes() || self is Reconfigure
    }

    /// The command closes a port.
    pub open spec fn closes(self) -> bool {
        self is Close || self is CloseWithConfig
    }

    /// The command needs the port's device.
    pub open spec fn needs_hardware(self) -> bool {
        self is GetSerialPort || self is Write
    }
}

/// The action serves the command on these ports.
pub open spec fn serves(
    ports: Map<Seq<char>, PortRecord>,
    cmd: PortCommand,
    action: PortAction,
) -> bool {
    match cmd.target() {
        None => action is Report,
        Some(name) => if cmd.opens() {
            if ports.contains_key(name) {
                action matches PortAction::Refuse(PortManagerError::AlreadyManaged(n)) && n@ == name
            } else if cmd is OpenReal {
                action is OpenDevice
            } else {
                action is Enrol
            }
        } else if cmd is Reconfigure {
            if ports.contains_key(name) {
                action matches PortAction::Replace(config) && config == ports[name].config
            } else {
                action is OpenDevice
            }
        } else if !ports.contains_key(name) {
            action matches PortAction::Refuse(PortManagerError::NotFound(n)) && n@ == name
        } else if cmd.closes() {
            action matches PortAction::ShutDown(config) && config == ports[name].config
        } else if cmd.needs_hardware() && !ports[name].hardware {
            action matches PortAction::Refuse(PortManagerError::NoHardware(n)) && n@ == name
        } else {
            action is Serve
        },
    }
}

/// The ports that are managed after the command.
pub open spec fn ports_after(ports: Map<Seq<char>, PortRecord>, cmd: PortCommand) -> Map<
    Seq<char>,
    PortRecord,
> {
    match cmd.target() {
        Some(name) if cmd.ends() => ports.remove(name),
        _ => ports,
    }
}

/// The names of the managed ports, in their order, after the command.
pub open spec fn names_after(
    names: Seq<Seq<char>>,
    ports: Map<Seq<char>, PortRecord>,
    cmd: PortCommand,
) -> Seq<Seq<char>> {
    match cmd.target() {
        Some(name) if cmd.ends() && ports.contains_key(name) => names.remove(names.index_of(name)),
        _ => names,
    }
}

impl PortRegistry {
    /// The names of the managed ports, in the order in which they were opened.
    pub closed spec fn names_list(&self) -> Seq<Seq<char>> {
        self.ports.names_list()
    }

    /// The listed names are those of the managed ports.
    pub proof fn names_are_ports(&self)
        ensures
            forall|name: Seq<char>| self@.contains_key(name) <==> self.names_list().contains(name),
    {
        self.ports.names_are_keys();
    }

    /// No port is managed.
    pub fn new() -> (r: PortRegistry)
        ensures
            r@ == Map::<Seq<char>, PortRecord>::empty(),
            r.names_list().len() == 0,
    {
        PortRegistry { ports: NameMap::new() }
    }

    /// Decide on a command. A port that is closed is not managed any more afterwards.
    pub fn handle(&mut self, cmd: &PortCommand) -> (r: PortAction)
        ensures
            serves(old(self)@, *cmd, r),
            final(self)@ == ports_after(old(self)@, *cmd),
            r matches PortAction::Report(names) ==> crate::text::texts(names@)
                == old(self).names_list() && names@.len() == old(self).names_list().len()
                && old(self).names_list().no_duplicates(),
            final(self).names_list() == names_after(
                old(self).names_list(),
                old(self)@,
                *cmd,
            ),
    {
        match cmd {
            PortCommand::OpenReal { name } => {
                if self.ports.contains_key(name.as_str()) {
                    PortAction::Refuse(PortManagerError::AlreadyManaged(copy_text(name.as_str())))
                } else {
                    PortAction::OpenDevice
                }
            },
            PortCommand::Reconfigure { name } => match self.ports.remove(name.as_str()) {
                Some(record) => PortAction::Replace(record.config),
                None => {
                    proof {
                        assert(old(self)@.remove(name@) =~= old(self)@);
                    }
                    PortAction::OpenDevice
                },
            },
            PortCommand::OpenMock { name } => {
                if self.ports.contains_key(name.as_str()) {
                    PortAction::Refuse(PortManagerError::AlreadyManaged(copy_text(name.as_str())))
                } else {
                    PortAction::Enrol
                }
            },
            PortCommand::Close { name } | PortCommand::CloseWithConfig { name } => {
                match self.ports.remove(name.as_str()) {
                    Some(record) => PortAction::ShutDown(record.config),
                    None => {
                        proof {
                            assert(old(self)@.remove(name@) =~= old(self)@);
                        }
                        PortAction::Refuse(PortManagerError::NotFound(copy_text(name.as_str())))
                    },
                }
            },
            PortCommand::List => PortAction::Report(self.names()),
            PortCommand::GetState { name } | PortCommand::GetStorage { name } => {
                if self.ports.contains_key(name.as_str()) {
                    PortAction::Serve
                } else {
                    PortAction::Refuse(PortManagerError::NotFound(copy_text(name.as_str())))
                }
            },
            PortCommand::GetSerialPort { name } | PortCommand::Write { name } => {
                match self.ports.get(name.as_str()) {
                    Some(record) => if record.hardware {
                        PortAction::Serve
                    } else {
                        PortAction::Refuse(PortManagerError::NoHardware(copy_text(name.as_str())))
                    },
                    None => PortAction::Refuse(
                        PortManagerError::NotFound(copy_text(name.as_str())),
                    ),
                }
            },
        }
    }

    /// The names of the managed ports.
    fn names(&self) -> (r: Vec<String>)
        ensures
            crate::text::texts(r@) == self.names_list(),
            self.names_list().no_duplicates(),
    {
        let mut out: Vec<String> = Vec::new();
        let n: usize = self.ports.len();
        let mut i: usize = 0;
        while i < n
            invariant
                i <= n,
                n == self.ports.names_list().len(),
                out@.len() == i,
                forall|k: int| 0 <= k < i ==> (#[trigger] out@[k])@ == self.ports.names_list()[k],
            decreases n - i,
        {
            out.push(copy_text(self.ports.name_at(i)));
            i = i + 1;
        }
        proof {
            assert(crate::text::texts(out@) =~= self.names_list());
        }
        out
    }

    /// Manage the port `name` from now on, unless it is managed already.
    pub fn enrol(&mut self, name: &str, config: PortConfig, hardware: bool) -> (r: Result<
        (),
        PortManagerError,
    >)
        ensures
            r is Err <==> old(self)@.contains_key(name@),
            r matches Err(e) ==> {
                &&& e matches PortManagerError::AlreadyManaged(n) && n@ == name@
                &&& final(self)@ == old(self)@
                &&& final(self).names_list() == old(self).names_list()
            },
            r is Ok ==> final(self)@ == old(self)@.insert(name@, PortRecord { config, hardware })
                && final(self).names_list() == old(self).names_list().push(name@),
    {
        if self.ports.contains_key(name) {
            return Err(PortManagerError::AlreadyManaged(copy_text(name)));
        }
        self.ports.insert(name, PortRecord { config, hardware });
        Ok(())
    }
}

// --- Opening a device ---

/// The steps in which a device is opened. The device is opened a second time for reading.
#[derive(Debug, Clone, Copy, PartialEq, Eq, Structural)]
pub enum OpenStage {
    Device,
    Storage,
    Reader,
    Ready,
}

/// Go on to the next step, or give up with the reason why this one failed.
pub fn open_step(stage: OpenStage, failure: Option<String>) -> (r: Result<
    OpenStage,
    PortManagerError,
>)
    ensures
        match failure {
            Some(why) => r matches Err(PortManagerError::Serial(w)) && w@ == why@,
            None => r == Ok::<OpenStage, PortManagerError>(
                match stage {
                    OpenStage::Device => OpenStage::Storage,
                    OpenStage::Storage => OpenStage::Reader,
                    _ => OpenStage::Ready,
                },
            ),
        },
{
    match failure {
        Some(why) => Err(PortManagerError::Serial(why)),
        None => Ok(
            match stage {
                OpenStage::Device => OpenStage::Storage,
                OpenStage::Storage => OpenStage::Reader,
                _ => OpenStage::Ready,
            },
        ),
    }
}

/// The settings to open a port with once more, `before` being those of the port that was to be
/// replaced: after a failure the port goes on with what it had.
pub fn fallback(opened: bool, before: Option<PortConfig>) -> (r: Option<PortConfig>)
    ensures
        r == (if opened {
            None
        } else {
            before
        }),
{
    if opened {
        None
    } else {
        before
    }
}

/// The file of a port's database: the port's path, its slashes replaced.
pub fn port_db_file(name: &str) -> (r: String)
    ensures
        r@ == crate::text::file_safe(name@) + ".db"@,
{
    let mut s = sanitize(name);
    s.append(".db");
    s
}

/// The size of a character on the wire.
#[derive(Debug, Clone, Copy, PartialEq, Eq, Structural)]
pub enum CharSize {
    Bits5,
    Bits6,
    Bits7,
    Bits8,
}

#[derive(Debug, Clone, Copy, PartialEq, Eq, Structural)]
pub enum StopBits {
    One,
    Two,
}

#[derive(Debug, Clone, Copy, PartialEq, Eq, Structural)]
pub enum Parity {
    Absent,
    Odd,
    Even,
}

#[derive(Debug, Clone, Copy, PartialEq, Eq, Structural)]
pub enum FlowControl {
    Absent,
    XonXoff,
    RtsCts,
}

/// How a device is set up.
#[derive(Debug, Clone, Copy, PartialEq, Eq, Structural)]
pub struct SerialSettings {
    pub baud_rate: u32,
    pub char_size: CharSize,
    pub stop_bits: StopBits,
    pub parity: Parity,
    pub flow_control: FlowControl,
}

/// The device settings that a configuration asks for. What it does not know is 8 data bits, one
/// stop bit, no parity and no flow control.
pub open spec fn settings_spec(config: PortConfig) -> SerialSettings {
    SerialSettings {
        baud_rate: config.baudrate,
        char_size: if config.data_bits == 5 {
            CharSize::Bits5
        } else if config.data_bits == 6 {
            CharSize::Bits6
        } else if config.data_bits == 7 {
            CharSize::Bits7
        } else {
            CharSize::Bits8
        },
        stop_bits: if config.stop_bits == 2 {
            StopBits::Two
        } else {
            StopBits::One
        },
        parity: if config.parity@ == "odd"@ {
            Parity::Odd
        } else if config.parity@ == "even"@ {
            Parity::Even
        } else {
            Parity::Absent
        },
        flow_control: if config.flow_control@ == "software"@ {
            FlowControl::XonXoff
        } else if config.flow_control@ == "hardware"@ {
            FlowControl::RtsCts
        } else {
            FlowControl::Absent
        },
    }
}

/// The device settings that a configuration asks for.
pub fn serial_settings(config: &PortConfig) -> (r: SerialSettings)
    ensures
        r == settings_spec(*config),
{
    SerialSettings {
        baud_rate: config.baudrate,
        char_size: match config.data_bits {
            5 => CharSize::Bits5,
            6 => CharSize::Bits6,
            7 => CharSize::Bits7,
            _ => CharSize::Bits8,
        },
        stop_bits: match config.stop_bits {
            2 => StopBits::Two,
            _ => StopBits::One,
        },
        parity: if same_text(config.parity.as_str(), "odd") {
            Parity::Odd
        } else if same_text(config.parity.as_str(), "even") {
            Parity::Even
        } else {
            Parity::Absent
        },
        flow_control: if same_text(config.flow_control.as_str(), "software") {
            FlowControl::XonXoff
        } else if same_text(config.flow_control.as_str(), "hardware") {
            FlowControl::RtsCts
        } else {
            FlowControl::Absent
        },
    }
}

// --- Laws ---

/// A command changes nothing about the ports that it does not name.
pub proof fn law_other_ports_untouched(
    ports: Map<Seq<char>, PortRecord>,
    cmd: PortCommand,
    other: Seq<char>,
)
    requires
        cmd.target() != Some(other),
    ensures
        ports_after(ports, cmd).contains_key(other) == ports.contains_key(other),
        ports.contains_key(other) ==> ports_after(ports, cmd)[other] == ports[other],
{
}

/// Opening a port through a reconfiguration is never refused, and afterwards the port can be
/// enrolled, whether it was managed or not.
pub proof fn law_reconfigure_always_opens(
    ports: Map<Seq<char>, PortRecord>,
    cmd: PortCommand,
    action: PortAction,
)
    requires
        cmd is Reconfigure,
        serves(ports, cmd, action),
    ensures
        action is OpenDevice || action is Replace,
        !ports_after(ports, cmd).contains_key(cmd.target()->0),
{
}

/// A port that was enrolled is refused a second opening, and is served until it is closed; its
/// settings come back when it is closed, and then it can be opened again.
pub proof fn law_open_close_open(
    ports: Map<Seq<char>, PortRecord>,
    record: PortRecord,
    open: PortCommand,
    close: PortCommand,
    a: PortAction,
    b: PortAction,
    c: PortAction,
)
    requires
        open.opens(),
        close.closes(),
        close.target() == open.target(),
        ({
            let name = open.target()->0;
            let with = ports.insert(name, record);
            let without = ports_after(with, close);
            &&& serves(with, open, a)
            &&& serves(with, close, b)
            &&& serves(without, open, c)
        }),
    ensures
        a matches PortAction::Refuse(PortManagerError::AlreadyManaged(n)) && Some(n@)
            == open.target(),
        b matches PortAction::ShutDown(config) && config == record.config,
        c is OpenDevice || c is Enrol,
{
}

/// Two ports never share a database file.
pub proof fn law_port_files_differ(a: Seq<char>, b: Seq<char>)
    requires
        crate::text::file_safe(a) + ".db"@ == crate::text::file_safe(b) + ".db"@,
    ensures
        a == b,
{
    let f = crate::text::file_safe(a) + ".db"@;
    let n = f.len() - ".db"@.len();
    assert(crate::text::file_safe(a) =~= f.take(n));
    assert(crate::text::file_safe(b) =~= f.take(n));
    crate::text::law_file_names_differ(a, b);
}

/// The command is refused because the port is managed.
pub open spec fn says_managed(action: PortAction, name: Seq<char>) -> bool {
    &&& action is Refuse
    &&& action->Refuse_0 is AlreadyManaged
    &&& action->Refuse_0->AlreadyManaged_0@ == name
}

/// The command is refused because the port is not managed.
pub open spec fn says_missing(action: PortAction, name: Seq<char>) -> bool {
    &&& action is Refuse
    &&& action->Refuse_0 is NotFound
    &&& action->Refuse_0->NotFound_0@ == name
}

/// The command is refused because the port has no device.
pub open spec fn says_no_device(action: PortAction, name: Seq<char>) -> bool {
    &&& action is Refuse
    &&& action->Refuse_0 is NoHardware
    &&& action->Refuse_0->NoHardware_0@ == name
}

/// How commands on a port are answered. A port that is managed is not opened again; one that is not is
/// opened, with its device or without one. Configuring anew replaces a managed port and opens any
/// other. Every other command is refused where the port is not managed. Closing shuts down with the
/// port's own settings. A write, or the device itself, is refused where the port has no device.
pub proof fn law_commands(
    ports: Map<Seq<char>, PortRecord>,
    cmd: PortCommand,
    action: PortAction,
)
    requires
        serves(ports, cmd, action),
    ensures
        cmd is List ==> action is Report,
        cmd matches PortCommand::OpenReal { name } ==> {
            &&& !ports.contains_key(name@) ==> action is OpenDevice
            &&& ports.contains_key(name@) ==> says_managed(action, name@)
        },
        cmd matches PortCommand::OpenMock { name } ==> {
            &&& !ports.contains_key(name@) ==> action is Enrol
            &&& ports.contains_key(name@) ==> says_managed(action, name@)
        },
        cmd matches PortCommand::Reconfigure { name } ==> {
            &&& !ports.contains_key(name@) ==> action is OpenDevice
            &&& ports.contains_key(name@) ==> action == PortAction::Replace(ports[name@].config)
        },
        cmd matches PortCommand::Close { name } ==> {
            &&& !ports.contains_key(name@) ==> says_missing(action, name@)
            &&& ports.contains_key(name@) ==> action == PortAction::ShutDown(ports[name@].config)
        },
        cmd matches PortCommand::CloseWithConfig { name } ==> {
            &&& !ports.contains_key(name@) ==> says_missing(action, name@)
            &&& ports.contains_key(name@) ==> action == PortAction::ShutDown(ports[name@].config)
        },
        cmd matches PortCommand::GetState { name } ==> {
            &&& !ports.contains_key(name@) ==> says_missing(action, name@)
            &&& ports.contains_key(name@) ==> action is Serve
        },
        cmd matches PortCommand::GetStorage { name } ==> {
            &&& !ports.contains_key(name@) ==> says_missing(action, name@)
            &&& ports.contains_key(name@) ==> action is Serve
        },
        cmd matches PortCommand::GetSerialPort { name } ==> {
            &&& !ports.contains_key(name@) ==> says_missing(action, name@)
            &&& ports.contains_key(name@) && ports[name@].hardware ==> action is Serve
            &&& ports.contains_key(name@) && !ports[name@].hardware
                ==> says_no_device(action, name@)
        },
        cmd matches PortCommand::Write { name } ==> {
            &&& !ports.contains_key(name@) ==> says_missing(action, name@)
            &&& ports.contains_key(name@) && ports[name@].hardware ==> action is Serve
            &&& ports.contains_key(name@) && !ports[name@].hardware
                ==> says_no_device(action, name@)
        },
{
}

/// The names but one, in their order.
pub open spec fn without_name(names: Seq<Seq<char>>, name: Seq<char>) -> Seq<Seq<char>> {
    names.filter(|n: Seq<char>| n != name)
}

/// Closing a port or configuring it anew ends its management, and no other command changes which ports
/// are managed. The others stay managed as they were, in their order.
pub proof fn law_ports_after(
    names: Seq<Seq<char>>,
    ports: Map<Seq<char>, PortRecord>,
    cmd: PortCommand,
    other: Seq<char>,
)
    requires
        names.no_duplicates(),
        forall|name: Seq<char>| names.contains(name) <==> #[trigger] ports.contains_key(name),
    ensures
        cmd is OpenReal || cmd is OpenMock || cmd is List || cmd is GetState || cmd is GetStorage
            || cmd is GetSerialPort || cmd is Write ==> ports_after(ports, cmd) == ports
            && names_after(names, ports, cmd) == names,
        cmd matches PortCommand::Close { name } ==> !ports_after(ports, cmd).contains_key(name@),
        cmd matches PortCommand::CloseWithConfig { name } ==> !ports_after(
            ports,
            cmd,
        ).contains_key(name@),
        cmd matches PortCommand::Reconfigure { name } ==> !ports_after(ports, cmd).contains_key(
            name@,
        ),
        cmd.target() != Some(other) ==> {
            &&& ports_after(ports, cmd).contains_key(other) <==> ports.contains_key(other)
            &&& ports.contains_key(other) ==> ports_after(ports, cmd)[other] == ports[other]
            &&& names_after(names, ports, cmd).contains(other) <==> names.contains(other)
        },
        (cmd is Close || cmd is CloseWithConfig || cmd is Reconfigure) && cmd.target() == Some(
            other,
        ) ==> names_after(names, ports, cmd) == without_name(names, other),
{
    if let Some(name) = cmd.target() {
        if cmd.ends() && names.contains(name) {
            let k = names.index_of(name);
            let left = names.remove(k);
            assert forall|x: Seq<char>| x != name implies (left.contains(x) <==> names.contains(
                x,
            )) by {
                if names.contains(x) {
                    let i = names.index_of(x);
                    if i < k {
                        assert(left[i] == x);
                    } else {
                        assert(left[i - 1] == x);
                    }
                }
                if left.contains(x) {
                    let i = left.index_of(x);
                    if i < k {
                        assert(names[i] == x);
                    } else {
                        assert(names[i + 1] == x);
                    }
                }
            }
            removed_is_filtered(names, k, name);
        } else if cmd.ends() {
            all_others(names, name);
        }
    }
}

proof fn all_others(names: Seq<Seq<char>>, name: Seq<char>)
    requires
        !names.contains(name),
    ensures
        without_name(names, name) == names,
    decreases names.len(),
{
    reveal(Seq::filter);
    if names.len() > 0 {
        let rest = names.drop_last();
        assert forall|i: int| 0 <= i < rest.len() implies rest[i] != name by {
            assert(names[i] == rest[i]);
        }
        all_others(rest, name);
        assert(names[names.len() - 1] != name);
        assert(rest.push(names.last()) =~= names);
    }
}

proof fn removed_is_filtered(names: Seq<Seq<char>>, k: int, name: Seq<char>)
    requires
        names.no_duplicates(),
        0 <= k < names.len(),
        names[k] == name,
    ensures
        names.remove(k) == without_name(names, name),
    decreases names.len(),
{
    reveal(Seq::filter);
    let rest = names.drop_last();
    if k == names.len() - 1 {
        assert(!rest.contains(name)) by {
            if rest.contains(name) {
                let i = rest.index_of(name);
                assert(names[i] == names[k]);
            }
        }
        all_others(rest, name);
        assert(names.remove(k) =~= rest);
    } else {
        assert(rest.no_duplicates());
        removed_is_filtered(rest, k, name);
        assert(names.last() != name);
        assert(names.remove(k) =~= rest.remove(k).push(names.last()));
    }
}

/// The settings that a device is opened with follow the configuration one by one: the baud rate is the
/// same, 5 to 7 data bits are taken as they are and any other number as 8, and likewise 2 stop bits, or
/// else 1; a parity or a flow control that has no name here is none.
pub proof fn law_settings(config: PortConfig)
    ensures
        ({
            let s = settings_spec(config);
            &&& s.baud_rate == config.baudrate
            &&& s.char_size == CharSize::Bits5 <==> config.data_bits == 5
            &&& s.char_size == CharSize::Bits6 <==> config.data_bits == 6
            &&& s.char_size == CharSize::Bits7 <==> config.data_bits == 7
            &&& s.stop_bits == StopBits::Two <==> config.stop_bits == 2
            &&& s.parity == Parity::Odd <==> config.parity@ == "odd"@
            &&& s.parity == Parity::Even <==> config.parity@ == "even"@
            &&& s.flow_control == FlowControl::XonXoff <==> config.flow_control@ == "software"@
            &&& s.flow_control == FlowControl::RtsCts <==> config.flow_control@ == "hardware"@
        }),
{
    reveal_strlit("odd");
    reveal_strlit("even");
    reveal_strlit("software");
    reveal_strlit("hardware");
    assert("odd"@.len() != "even"@.len());
    assert("software"@[0] != "hardware"@[0]);
}

/// The messages name the port, or what the device said.
pub proof fn law_manager_messages(e: PortManagerError)
    ensures
        e matches PortManagerError::NotFound(name) ==> e.text() == "port '"@ + name@
            + "' not found"@,
        e matches PortManagerError::AlreadyManaged(name) ==> e.text() == "port '"@ + name@
            + "' already managed"@,
        e matches PortManagerError::Serial(why) ==> e.text() == "serial port error: "@ + why@,
        e matches PortManagerError::NoHardware(name) ==> e.text() == "port '"@ + name@
            + "' has no hardware handle (mock port)"@,
{
}

} // verus!

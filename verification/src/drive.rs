use vstd::prelude::*;

verus! {

/// The bytes of the frame that sets the two wheel speeds:
/// start marker, command, the two speeds, their XOR as a check byte, end marker.
pub open spec fn serial_packet(left_speed: u8, right_speed: u8) -> Seq<u8> {
    seq![0x10u8, 0x02u8, 0x02u8, left_speed, right_speed, left_speed ^ right_speed, 0x10u8, 0x03u8]
}

/// Builds the frame that tells the motor controller to drive the left wheel
/// at `left_speed` and the right wheel at `right_speed`.
pub fn make_serial_packet(left_speed: u8, right_speed: u8) -> (packet: [u8; 8])
    ensures
        packet@ == serial_packet(left_speed, right_speed),
        packet@ == seq![0x10u8, 0x02u8, 0x02u8, left_speed, right_speed, left_speed ^ right_speed, 0x10u8, 0x03u8],
        packet[3] == left_speed,
        packet[4] == right_speed,
        packet@[5] == packet@[3] ^ packet@[4],
{
    let packet = [0x10, 0x02, 0x02, left_speed, right_speed, left_speed ^ right_speed, 0x10, 0x03];
    assert(packet@ =~= serial_packet(left_speed, right_speed));
    packet
}

/// The frame layout: start marker `0x10 0x02`, command `0x02`, then the
/// left wheel's speed, the right wheel's speed, their XOR, and the end marker
/// `0x10 0x03`. Swapping the speeds swaps bytes 3 and 4 and nothing else.
pub proof fn law_packet_layout(left_speed: u8, right_speed: u8)
    ensures
        serial_packet(left_speed, right_speed).len() == 8,
        serial_packet(left_speed, right_speed)[0] == 0x10u8,
        serial_packet(left_speed, right_speed)[1] == 0x02u8,
        serial_packet(left_speed, right_speed)[2] == 0x02u8,
        serial_packet(left_speed, right_speed)[3] == left_speed,
        serial_packet(left_speed, right_speed)[4] == right_speed,
        serial_packet(left_speed, right_speed)[5] == left_speed ^ right_speed,
        serial_packet(left_speed, right_speed)[6] == 0x10u8,
        serial_packet(left_speed, right_speed)[7] == 0x03u8,
        serial_packet(right_speed, left_speed)[3] == serial_packet(left_speed, right_speed)[4],
        serial_packet(right_speed, left_speed)[4] == serial_packet(left_speed, right_speed)[3],
        serial_packet(right_speed, left_speed)[5] == serial_packet(left_speed, right_speed)[5],
{
    assert(right_speed ^ left_speed == left_speed ^ right_speed) by (bit_vector);
}

/// A drive instruction sent by the user interface.
#[derive(Clone, Copy, Debug, PartialEq, Eq, Structural)]
pub enum DriveCommand {
    Forward,
    Back,
    Left,
    Right,
    Stop,
}

/// The command that a message text names, if it names one.
pub open spec fn command_of_text(text: Seq<char>) -> Option<DriveCommand> {
    if text == seq!['F', 'O', 'R', 'W', 'A', 'R', 'D'] {
        Some(DriveCommand::Forward)
    } else if text == seq!['B', 'A', 'C', 'K'] {
        Some(DriveCommand::Back)
    } else if text == seq!['L', 'E', 'F', 'T'] {
        Some(DriveCommand::Left)
    } else if text == seq!['R', 'I', 'G', 'H', 'T'] {
        Some(DriveCommand::Right)
    } else if text == seq!['S', 'T', 'O', 'P'] {
        Some(DriveCommand::Stop)
    } else {
        None
    }
}

/// The (left, right) wheel speeds that a command asks for.
pub open spec fn command_speeds(command: DriveCommand) -> (u8, u8) {
    match command {
        DriveCommand::Forward => (255, 255),
        DriveCommand::Back => (127, 127),
        DriveCommand::Left => (127, 255),
        DriveCommand::Right => (255, 127),
        DriveCommand::Stop => (0, 0),
    }
}

impl DriveCommand {
    /// The (left, right) wheel speeds of this command.
    pub fn wheel_speeds(self) -> (speeds: (u8, u8))
        ensures
            speeds == command_speeds(self),
    {
        match self {
            DriveCommand::Forward => (255, 255),
            DriveCommand::Back => (127, 127),
            DriveCommand::Left => (127, 255),
            DriveCommand::Right => (255, 127),
            DriveCommand::Stop => (0, 0),
        }
    }

    /// The serial frame that carries this command to the motor controller.
    pub fn packet(self) -> (packet: [u8; 8])
        ensures
            packet@ == serial_packet(command_speeds(self).0, command_speeds(self).1),
    {
        let (left, right) = self.wheel_speeds();
        make_serial_packet(left, right)
    }
}

/// The characters of `text`, in order.
fn text_chars(text: &str) -> (chars: Vec<char>)
    ensures
        chars@ == text@,
{
    let mut chars: Vec<char> = Vec::new();
    for c in it: text.chars()
        invariant
            it.seq() == text@,
            chars@ == it.seq().take(it.index() as int),
    {
        chars.push(c);
    }
    chars
}

/// Whether `chars` holds exactly the characters of `word`.
fn chars_equal(chars: &Vec<char>, word: &[char]) -> (equal: bool)
    ensures
        equal == (chars@ == word@),
{
    if chars.len() != word.len() {
        return false;
    }
    let mut i: usize = 0;
    while i < word.len()
        invariant
            chars.len() == word.len(),
            i <= word.len(),
            forall|j: int| 0 <= j < i ==> chars@[j] == word@[j],
        decreases word.len() - i,
    {
        if chars[i] != word[i] {
            return false;
        }
        i = i + 1;
    }
    assert(chars@ =~= word@);
    true
}

/// Reads a drive message from the user interface. Messages other than
/// `FORWARD`, `BACK`, `LEFT`, `RIGHT` and `STOP` name no command.
pub fn parse_drive_command(text: &str) -> (command: Option<DriveCommand>)
    ensures
        command == command_of_text(text@),
{
    let chars = text_chars(text);
    let forward = ['F', 'O', 'R', 'W', 'A', 'R', 'D'];
    let back = ['B', 'A', 'C', 'K'];
    let left = ['L', 'E', 'F', 'T'];
    let right = ['R', 'I', 'G', 'H', 'T'];
    let stop = ['S', 'T', 'O', 'P'];
    assert(forward@ =~= seq!['F', 'O', 'R', 'W', 'A', 'R', 'D']);
    assert(back@ =~= seq!['B', 'A', 'C', 'K']);
    assert(left@ =~= seq!['L', 'E', 'F', 'T']);
    assert(right@ =~= seq!['R', 'I', 'G', 'H', 'T']);
    assert(stop@ =~= seq!['S', 'T', 'O', 'P']);
    if chars_equal(&chars, forward.as_slice()) {
        Some(DriveCommand::Forward)
    } else if chars_equal(&chars, back.as_slice()) {
        Some(DriveCommand::Back)
    } else if chars_equal(&chars, left.as_slice()) {
        Some(DriveCommand::Left)
    } else if chars_equal(&chars, right.as_slice()) {
        Some(DriveCommand::Right)
    } else if chars_equal(&chars, stop.as_slice()) {
        Some(DriveCommand::Stop)
    } else {
        None
    }
}

/// The serial frame to send for a message from the user interface, or `None`
/// when the message names no drive command and is to be ignored.
pub fn command_packet(text: &str) -> (packet: Option<[u8; 8]>)
    ensures
        match command_of_text(text@) {
            Some(command) => packet matches Some(p) && p@ == serial_packet(
                command_speeds(command).0,
                command_speeds(command).1,
            ),
            None => packet is None,
        },
        text@ == seq!['F', 'O', 'R', 'W', 'A', 'R', 'D'] ==> (packet matches Some(p)
            && p@ == seq![0x10u8, 0x02u8, 0x02u8, 255u8, 255u8, 0x00u8, 0x10u8, 0x03u8]),
        text@ == seq!['B', 'A', 'C', 'K'] ==> (packet matches Some(p)
            && p@ == seq![0x10u8, 0x02u8, 0x02u8, 127u8, 127u8, 0x00u8, 0x10u8, 0x03u8]),
        text@ == seq!['L', 'E', 'F', 'T'] ==> (packet matches Some(p)
            && p@ == seq![0x10u8, 0x02u8, 0x02u8, 127u8, 255u8, 0x80u8, 0x10u8, 0x03u8]),
        text@ == seq!['R', 'I', 'G', 'H', 'T'] ==> (packet matches Some(p)
            && p@ == seq![0x10u8, 0x02u8, 0x02u8, 255u8, 127u8, 0x80u8, 0x10u8, 0x03u8]),
        text@ == seq!['S', 'T', 'O', 'P'] ==> (packet matches Some(p)
            && p@ == seq![0x10u8, 0x02u8, 0x02u8, 0u8, 0u8, 0x00u8, 0x10u8, 0x03u8]),
{
    proof {
        assert(255u8 ^ 255u8 == 0u8) by (bit_vector);
        assert(127u8 ^ 127u8 == 0u8) by (bit_vector);
        assert(127u8 ^ 255u8 == 0x80u8) by (bit_vector);
        assert(255u8 ^ 127u8 == 0x80u8) by (bit_vector);
        assert(0u8 ^ 0u8 == 0u8) by (bit_vector);
    }
    match parse_drive_command(text) {
        Some(command) => Some(command.packet()),
        None => None,
    }
}

/// The kind of a serial port found on the machine.
#[derive(Clone, Copy, Debug, PartialEq, Eq, Structural)]
pub enum PortKind {
    Usb,
    Pci,
    Bluetooth,
    Unknown,
}

/// The ports to try, in order, when no motor controller is connected: the
/// positions in `kinds` of the USB ports, in the order they were listed.
pub fn connection_candidates(kinds: &[PortKind]) -> (candidates: Vec<usize>)
    ensures
        forall|i: int| 0 <= i < candidates@.len() ==> #[trigger] candidates@[i] < kinds@.len()
            && kinds@[candidates@[i] as int] == PortKind::Usb,
        forall|i: int, j: int| 0 <= i < j < candidates@.len() ==> candidates@[i] < candidates@[j],
        forall|k: int| 0 <= k < kinds@.len() && kinds@[k] == PortKind::Usb ==> candidates@.contains(k as usize),
{
    let mut candidates: Vec<usize> = Vec::new();
    let mut k: usize = 0;
    while k < kinds.len()
        invariant
            k <= kinds@.len(),
            forall|i: int| 0 <= i < candidates@.len() ==> #[trigger] candidates@[i] < k
                && kinds@[candidates@[i] as int] == PortKind::Usb,
            forall|i: int, j: int| 0 <= i < j < candidates@.len() ==> candidates@[i] < candidates@[j],
            forall|m: int| 0 <= m < k && kinds@[m] == PortKind::Usb ==> candidates@.contains(m as usize),
        decreases kinds@.len() - k,
    {
        let ghost before = candidates@;
        if kinds[k] == PortKind::Usb {
            candidates.push(k);
            assert(candidates@[candidates@.len() - 1] == k);
        }
        assert forall|m: int| 0 <= m < k + 1 && kinds@[m] == PortKind::Usb implies candidates@.contains(
            m as usize,
        ) by {
            if m == k {
                assert(candidates@[candidates@.len() - 1] == k);
            } else {
                let i = choose|i: int| 0 <= i < before.len() && before[i] == m as usize;
                assert(candidates@[i] == before[i]);
            }
        }
        k = k + 1;
    }
    candidates
}

} // verus!

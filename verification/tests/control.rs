use mirage::control::{
    client_step, control_frame_header, control_frame_len, server_first_frame, server_input_step, ClientStep,
    ControlError, InputStep, MirageDaemonClient, OutputFormat, TransportFrame,
};
use mirage::marshal::ToBytes;

#[test]
fn client_keeps_its_socket_path() {
    let client = MirageDaemonClient::new("/run/mirage/daemon.sock".to_string());
    assert_eq!(client.socket_path(), "/run/mirage/daemon.sock");
    assert_eq!(OutputFormat::default(), OutputFormat::Default);
}

#[test]
fn frame_kinds_name_their_message() {
    assert_eq!(TransportFrame::Request("health".to_string()).kind(), "health");
    assert_eq!(TransportFrame::Error("x".to_string()).kind(), "error");
    assert_eq!(TransportFrame::EndInput.kind(), "end-input");
}

#[test]
fn client_forwards_output_and_stops_at_the_reply() {
    assert_eq!(client_step(&TransportFrame::Output("attach".to_string()), true), ClientStep::Forward);
    assert_eq!(
        client_step(&TransportFrame::Output("attach".to_string()), false),
        ClientStep::Fail(ControlError::Protocol("received unexpected attach output frame".to_string()))
    );
    assert_eq!(client_step(&TransportFrame::Reply("health".to_string()), false), ClientStep::Reply);
    assert_eq!(
        client_step(&TransportFrame::Error("session 'x' does not exist".to_string()), true),
        ClientStep::Fail(ControlError::Remote("session 'x' does not exist".to_string()))
    );
    assert_eq!(
        client_step(&TransportFrame::EndInput, true),
        ClientStep::Fail(ControlError::Protocol("expected output or reply frame but received end-input".to_string()))
    );
}

#[test]
fn server_wants_a_request_then_input() {
    assert_eq!(server_first_frame(&TransportFrame::Request("boot".to_string())), Ok("boot".to_string()));
    assert_eq!(
        server_first_frame(&TransportFrame::Input("attach".to_string())),
        Err(ControlError::Protocol("expected request frame but received attach".to_string()))
    );
    assert_eq!(server_input_step(&TransportFrame::Input("attach".to_string())), InputStep::Deliver);
    assert_eq!(server_input_step(&TransportFrame::EndInput), InputStep::Finish);
    assert_eq!(
        server_input_step(&TransportFrame::Reply("boot".to_string())),
        InputStep::Fail("expected input or end-input frame but received boot".to_string())
    );
}

#[test]
fn control_frames_are_length_prefixed() {
    let header = control_frame_header(300).unwrap();
    assert_eq!(header, [0, 0, 1, 44]);
    assert_eq!(control_frame_len(header), Ok(300));
    assert_eq!(
        control_frame_len([0x04, 0, 0, 1]),
        Err(ControlError::Protocol(
            "rpc frame of 67108865 bytes exceeds maximum supported size of 67108864 bytes".to_string()
        ))
    );
}

struct Blob(Vec<u8>);

impl ToBytes for Blob {
    fn to_bytes(&self) -> Vec<u8> {
        self.0.clone()
    }
}

#[test]
fn byte_encodings_are_user_defined() {
    assert_eq!(Blob(vec![1, 2]).to_bytes(), vec![1, 2]);
}

use memdiff::codec::Response;
use memdiff::codec::ResponseError;
use memdiff::codec::decode_response;
use memdiff::codec::remote_frame_emulating;
use memdiff::runner::Runner;
use memdiff::runner::Verdict;
use memdiff::runner::compare;
use memdiff::simulator::Command;
use memdiff::simulator::Error;
use memdiff::simulator::Simulator;

#[test]
fn commands_encode_to_fixed_frames() {
    assert_eq!(Command::Read(2).to_bytes(), [1, 2, 0]);
    assert_eq!(Command::Write(1, 9).to_bytes(), [2, 1, 9]);
    assert_eq!(Command::Sum.to_bytes(), [3, 0, 0]);
    assert_eq!(Command::Product.to_bytes(), [4, 0, 0]);
}

#[test]
fn response_frames_decode_by_status_byte() {
    assert_eq!(decode_response([0, 42]), Response::Success(42));
    assert_eq!(decode_response([1, 0]), Response::Failure(ResponseError::ProtocolError));
    assert_eq!(decode_response([1, 200]), Response::Failure(ResponseError::ProtocolError));
    assert_eq!(decode_response([2, 0]), Response::Failure(ResponseError::DecodeError));
    assert_eq!(decode_response([7, 9]), Response::Failure(ResponseError::DecodeError));
    assert_eq!(decode_response([255, 255]), Response::Failure(ResponseError::DecodeError));
}

#[test]
fn encoded_commands_round_trip_through_a_conforming_remote() {
    let mut remote = Simulator::new();
    let mut local = Simulator::new();
    let commands = [
        Command::Write(0, 5),
        Command::Write(3, 7),
        Command::Read(0),
        Command::Read(3),
        Command::Sum,
        Command::Product,
    ];
    for command in commands {
        let frame = remote_frame_emulating(&mut remote, command.to_bytes());
        let decoded = decode_response(frame);
        let expected = local.execute_command(&command).unwrap();
        assert_eq!(decoded, Response::Success(expected));
    }
}

#[test]
fn a_conforming_remote_signals_failure_on_invalid_commands() {
    let mut remote = Simulator::new();
    let frame = remote_frame_emulating(&mut remote, Command::Read(4).to_bytes());
    assert_eq!(decode_response(frame), Response::Failure(ResponseError::ProtocolError));
    let frame = remote_frame_emulating(&mut remote, [9, 0, 0]);
    assert_eq!(decode_response(frame), Response::Failure(ResponseError::ProtocolError));
}

#[test]
fn comparison_policy_on_every_pairing() {
    let ok3: Result<u8, Error> = Ok(3);
    assert_eq!(compare(&ok3, &Some(Response::Success(3))), Verdict::Match);
    assert_eq!(compare(&ok3, &Some(Response::Success(4))), Verdict::Divergence);
    assert_eq!(
        compare(&ok3, &Some(Response::Failure(ResponseError::ProtocolError))),
        Verdict::Divergence
    );
    assert_eq!(
        compare(&Err(Error::Overflow), &Some(Response::Success(0))),
        Verdict::Divergence
    );
    assert_eq!(
        compare(&Err(Error::InvalidRead), &Some(Response::Failure(ResponseError::DecodeError))),
        Verdict::Divergence
    );
    assert_eq!(compare(&ok3, &None), Verdict::CommunicationFailure);
    assert_eq!(compare(&Err(Error::InvalidWrite), &None), Verdict::CommunicationFailure);
}

#[test]
fn runner_halts_with_divergence_on_off_by_one_remote() {
    // A remote that always answers with the local value plus one diverges on
    // the very first command, with nothing counted as matched.
    let mut probe = Simulator::new();
    let command = Command::Read(0);
    let local_value: u8 = probe.execute_command(&command).unwrap();
    let mut runner = Runner::new();
    let (verdict, local) = runner.step(command, Some(Response::Success(local_value + 1)));
    assert_eq!(verdict, Verdict::Divergence);
    assert_eq!(local, Ok(local_value));
    assert_eq!(runner.matched(), 0);
    assert_eq!(runner.trace().len(), 1);
}

#[test]
fn runner_halts_with_transport_failure_not_divergence() {
    // A remote that closes the connection before writing any bytes yields no
    // response frame at all.
    let mut runner = Runner::new();
    let (verdict, local) = runner.step(Command::Read(0), None);
    assert_eq!(verdict, Verdict::CommunicationFailure);
    assert_ne!(verdict, Verdict::Divergence);
    assert_eq!(local, Ok(0));
    assert_eq!(runner.matched(), 0);
}

#[test]
fn runner_counts_matches_and_keeps_the_trace() {
    let mut remote = Simulator::new();
    let mut runner = Runner::new();
    let commands = [
        Command::Write(0, 5),
        Command::Write(1, 6),
        Command::Read(0),
        Command::Sum,
        Command::Product,
    ];
    for command in commands {
        let frame = remote_frame_emulating(&mut remote, command.to_bytes());
        let response = decode_response(frame);
        let (verdict, _) = runner.step(command, Some(response));
        assert_eq!(verdict, Verdict::Match);
    }
    assert_eq!(runner.matched(), commands.len());
    assert_eq!(runner.trace().as_slice(), &commands[..]);
}

#[test]
fn runner_diverges_when_remote_fails_and_local_errs() {
    // Local errors and remote failure responses never pair up as a match
    // under the policy, even when both sides reject the same command.
    let mut remote = Simulator::new();
    let mut runner = Runner::new();
    let command = Command::Write(4, 1);
    let frame = remote_frame_emulating(&mut remote, command.to_bytes());
    let (verdict, local) = runner.step(command, Some(decode_response(frame)));
    assert_eq!(verdict, Verdict::Divergence);
    assert_eq!(local, Err(Error::InvalidWrite));
    assert_eq!(runner.matched(), 0);
}

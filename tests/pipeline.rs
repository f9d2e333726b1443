use spotty::grid::Position;
use spotty::screen::Screen;
use spotty::tty::{
    poll_step, reader_step, writer_step, PollAction, QueueEvent, ReaderAction, TryReadError,
    WriterAction, READ_CHUNK,
};

#[test]
fn poll_hands_output_to_the_screen() {
    let mut screen = Screen::new([2, 4]);
    assert_eq!(poll_step(&mut screen, Ok(b"ab"), 3, 10), PollAction::PollAgain);
    assert_eq!(screen.grid.get(Position::new(0, 1)).character, 'b');
    assert_eq!(poll_step(&mut screen, Ok(b"\x1b["), 11, 10), PollAction::EndFrame);
    assert_eq!(screen.residual_input, b"\x1b[".to_vec());
    assert_eq!(poll_step(&mut screen, Ok(b"H"), 10, 10), PollAction::PollAgain);
    assert_eq!(screen.cursor, Position::new(0, 0));
}

#[test]
fn poll_ends_frame_or_session() {
    let mut screen = Screen::new([2, 4]);
    screen.process_input(b"x\x1b[");
    assert_eq!(poll_step(&mut screen, Err(TryReadError::Empty), 0, 10), PollAction::EndFrame);
    assert_eq!(poll_step(&mut screen, Err(TryReadError::Closed), 0, 10), PollAction::CloseSession);
    assert_eq!(screen.residual_input, b"\x1b[".to_vec());
    assert_eq!(screen.cursor, Position::new(0, 1));
}

#[test]
fn writer_and_reader_decisions() {
    assert_eq!(writer_step(QueueEvent::Received), WriterAction::WriteAndContinue);
    assert_eq!(writer_step(QueueEvent::Empty), WriterAction::FlushAndWait);
    assert_eq!(writer_step(QueueEvent::Disconnected), WriterAction::Stop);
    assert_eq!(reader_step(0), ReaderAction::Stop);
    assert_eq!(reader_step(5), ReaderAction::Forward(5));
    assert_eq!(reader_step(READ_CHUNK), ReaderAction::Forward(8192));
}

#[test]
fn new_screen_title_and_alternate_grid() {
    let mut screen = Screen::new([2, 2]);
    assert_eq!(screen.title, "spotty");
    screen.process_input(b"\x1b[?47h");
    assert_eq!(screen.grid.get(Position::new(1, 1)).character, ' ');
}

use usirun::player::writer::GuiCommandWriter;
use usirun::usi::gui::GuiCommand;

#[test]
fn writer_it_works() {
    let buf: Vec<u8> = Vec::new();
    let mut writer = GuiCommandWriter::new(buf);
    let s = writer
        .send(&GuiCommand::Usi)
        .expect("failed to write to the buffer");
    assert_eq!("usi\n".as_bytes(), s);
    let s = writer
        .send(&GuiCommand::IsReady)
        .expect("failed to write to the buffer");
    assert_eq!("isready\n".as_bytes(), s);
    let s = writer
        .send(&GuiCommand::SetOption(
            "key".as_bytes().to_vec(),
            Some("val".as_bytes().to_vec()),
        ))
        .expect("failed to write to the buffer");
    assert_eq!("setoption name key value val\n".as_bytes(), s);
}

#[test]
fn writer_keeps_the_lines_until_they_are_taken() {
    let mut writer = GuiCommandWriter::new(b"# ".to_vec());
    writer.send(&GuiCommand::Stop).expect("a line");
    writer.send(&GuiCommand::Quit).expect("a line");
    assert_eq!(b"# stop\nquit\n".as_slice(), writer.written());
    assert_eq!(b"# stop\nquit\n".to_vec(), writer.take());
    assert_eq!(b"".as_slice(), writer.written());
    writer.send(&GuiCommand::Ponderhit).expect("a line");
    assert_eq!(b"ponderhit\n".to_vec(), writer.take());
}

use iced_digraph::app::{App, Effect, HeatmapPalette, Message};
use iced_digraph::loader::{chunk_read, LoadAction, LoadEvent, Loader, READ_CHUNK};

fn text_of(action: LoadAction) -> String {
    match action {
        LoadAction::SendLast(Message::FileLoadErr(text)) => text,
        _ => panic!("an error expected"),
    }
}

#[test]
fn chunk_size() {
    assert_eq!(READ_CHUNK, 1024 * 1024);
    let mut loader = Loader::Opening;
    match loader.step(LoadEvent::Opened(Ok(()))) {
        LoadAction::Read { at_most } => assert_eq!(at_most, 1024 * 1024),
        _ => panic!("a read expected"),
    }
    let mut loader = Loader::Delivering;
    match loader.step(LoadEvent::Sent(true)) {
        LoadAction::Read { at_most } => assert_eq!(at_most, 1024 * 1024),
        _ => panic!("a read expected"),
    }
}

#[test]
fn what_was_read_is_the_front_of_the_buffer() {
    let scratch = [10, 11, 12, 13];
    for n in 0..=4 {
        let event = chunk_read(&scratch, n);
        assert!(Loader::Reading.awaits(&event));
        match event {
            LoadEvent::Read(Ok(chunk)) => assert_eq!(chunk, scratch[..n].to_vec()),
            _ => panic!("bytes expected"),
        }
    }
}

#[test]
fn a_chunk_is_never_larger_than_was_asked_for() {
    let scratch = vec![7; READ_CHUNK];
    let mut loader = Loader::Reading;
    match loader.step(chunk_read(&scratch, READ_CHUNK)) {
        LoadAction::Send(Message::FileLoadChunk(chunk)) => assert_eq!(chunk.len(), READ_CHUNK),
        _ => panic!("a chunk expected"),
    }
    assert_eq!(loader, Loader::Delivering);
    assert!(!Loader::Reading.awaits(&LoadEvent::Read(Ok(vec![7; READ_CHUNK + 1]))));
}

#[test]
fn metadata_errors_are_labelled() {
    let mut loader = Loader::start();
    let action = loader.step(LoadEvent::Metadata(Err("no such file".to_string())));
    assert_eq!(text_of(action), "metadata: no such file");
    assert_eq!(loader, Loader::Finished);
}

#[test]
fn open_errors_are_passed_on() {
    let mut loader = Loader::Opening;
    let action = loader.step(LoadEvent::Opened(Err("denied".to_string())));
    assert_eq!(text_of(action), "denied");
    assert_eq!(loader, Loader::Finished);
}

#[test]
fn read_errors_are_passed_on() {
    let mut loader = Loader::Reading;
    let action = loader.step(LoadEvent::Read(Err("bad sector".to_string())));
    assert_eq!(text_of(action), "bad sector");
    assert_eq!(loader, Loader::Finished);
}

#[test]
fn the_largest_size_is_announced() {
    let mut loader = Loader::start();
    let largest = usize::MAX as u64;
    match loader.step(LoadEvent::Metadata(Ok(largest))) {
        LoadAction::Send(Message::FileLoadMeta { total_len }) => assert_eq!(total_len, usize::MAX),
        _ => panic!("the size expected"),
    }
    assert_eq!(loader, Loader::Announcing);
}

#[test]
fn a_read_stops_when_nobody_listens() {
    let mut loader = Loader::Announcing;
    assert!(matches!(loader.step(LoadEvent::Sent(false)), LoadAction::Stop));
    assert_eq!(loader, Loader::Finished);
    let mut loader = Loader::Delivering;
    assert!(matches!(loader.step(LoadEvent::Sent(false)), LoadAction::Stop));
    assert_eq!(loader, Loader::Finished);
}

#[test]
fn only_the_answer_is_awaited() {
    let states = [
        Loader::Metadata,
        Loader::Announcing,
        Loader::Opening,
        Loader::Reading,
        Loader::Delivering,
        Loader::Finished,
    ];
    for state in states {
        assert_eq!(state.awaits(&LoadEvent::Metadata(Ok(0))), state == Loader::Metadata);
        assert_eq!(
            state.awaits(&LoadEvent::Sent(true)),
            state == Loader::Announcing || state == Loader::Delivering
        );
        assert_eq!(state.awaits(&LoadEvent::Opened(Ok(()))), state == Loader::Opening);
        assert_eq!(state.awaits(&LoadEvent::Read(Ok(Vec::new()))), state == Loader::Reading);
    }
}

/// Read a file that comes in `chunks` and declares `declared` bytes into a viewer.
fn load(declared: u64, chunks: &[&[u8]]) -> (App, Vec<u8>, Vec<Effect>) {
    let mut bytes = vec![1, 2, 3];
    let (mut app, _) = App::init("old".to_string(), &bytes, HeatmapPalette::Magma);
    let mut effects = Vec::new();
    let picked = Message::FilePickResult(Ok("new".to_string()));
    effects.push(app.update(Some(&mut bytes), picked));
    let mut loader = Loader::start();
    let mut event = LoadEvent::Metadata(Ok(declared));
    let mut next = 0;
    while loader.awaits(&event) {
        event = match loader.step(event) {
            LoadAction::Send(msg) => {
                effects.push(app.update(Some(&mut bytes), msg));
                LoadEvent::Sent(true)
            }
            LoadAction::SendLast(msg) => {
                effects.push(app.update(Some(&mut bytes), msg));
                break;
            }
            LoadAction::Open => LoadEvent::Opened(Ok(())),
            LoadAction::Read { .. } => {
                next += 1;
                match chunks.get(next - 1) {
                    Some(chunk) => chunk_read(chunk, chunk.len()),
                    None => chunk_read(&[], 0),
                }
            }
            LoadAction::Stop => break,
        };
    }
    assert_eq!(loader, Loader::Finished);
    (app, bytes, effects)
}

#[test]
fn a_clean_read_delivers_the_file() {
    let (app, bytes, effects) = load(6, &[&[10, 11], &[12], &[13, 14, 15]]);
    assert_eq!(bytes, vec![10, 11, 12, 13, 14, 15]);
    assert_eq!(app.file_total_len, 6);
    assert!(app.subscription().is_none());
    assert_eq!(app.path, "new");
    assert_eq!(
        effects,
        vec![
            Effect::Nothing,
            Effect::Nothing,
            Effect::Nothing,
            Effect::Nothing,
            Effect::Nothing,
            Effect::RecomputeImage,
        ]
    );
}

#[test]
fn a_file_that_grew_is_cut_off() {
    let (app, bytes, _) = load(4, &[&[10, 11], &[12, 13, 14], &[15]]);
    assert_eq!(bytes, vec![10, 11, 12, 13]);
    assert_eq!(app.file_total_len, 4);
}

#[test]
fn a_file_that_shrank_is_short() {
    let (app, bytes, _) = load(4, &[&[10, 11]]);
    assert_eq!(bytes, vec![10, 11]);
    assert_eq!(app.file_total_len, 2);
}

#[test]
fn an_empty_file() {
    let (app, bytes, _) = load(0, &[]);
    assert_eq!(bytes, Vec::<u8>::new());
    assert_eq!(app.file_total_len, 0);
    assert!(app.active_load.is_none());
}

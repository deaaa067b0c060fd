use toot_3d::ui::loader::{Loader, QrCanvas};
use toot_3d::ui::mailbox::{Mailbox, UiMsg};
use toot_3d::ui::pool::LogicImgPool;

type Msg = UiMsg<u8, u8, u8>;

fn code() -> Loader {
    Loader::Code(QrCanvas::new(1, 1))
}

fn number(msg: &Msg) -> (bool, usize) {
    match msg {
        UiMsg::LoadImage(id, _) => (true, *id),
        UiMsg::UnloadImage(id) => (false, *id),
        _ => panic!("no picture message"),
    }
}

#[test]
fn handles_get_the_lowest_free_number() {
    let mut pool = LogicImgPool::new();
    let mut mailbox: Mailbox<u8, u8, u8> = Mailbox::new();
    let a = pool.allocate(code(), &mut mailbox).unwrap();
    let b = pool.allocate(code(), &mut mailbox).unwrap();
    let c = pool.alloc_box(Box::new(code()), &mut mailbox).unwrap();
    assert_eq!((a.get_id(), b.get_id(), c.get_id()), (0, 1, 2));
    // the number of a handle that went back is the first to be given out
    pool.dealloc(b, &mut mailbox);
    let d = pool.allocate(code(), &mut mailbox).unwrap();
    assert_eq!(d.get_id(), 1);
    let e = pool.allocate(code(), &mut mailbox).unwrap();
    assert_eq!(e.get_id(), 3);
    pool.dealloc(a, &mut mailbox);
    pool.dealloc(c, &mut mailbox);
    let f = pool.allocate(code(), &mut mailbox).unwrap();
    assert_eq!(f.get_id(), 0);
    let (batch, running) = mailbox.drain_once();
    assert!(running);
    let seen: Vec<(bool, usize)> = batch.iter().map(number).collect();
    assert_eq!(
        seen,
        vec![
            (true, 0),
            (true, 1),
            (true, 2),
            (false, 1),
            (true, 1),
            (true, 3),
            (false, 0),
            (false, 2),
            (true, 0)
        ]
    );
}

#[test]
fn live_handles_never_share_a_number() {
    let mut pool = LogicImgPool::new();
    let mut mailbox: Mailbox<u8, u8, u8> = Mailbox::new();
    let mut live = Vec::new();
    for round in 0..50usize {
        let handle = pool.allocate(code(), &mut mailbox).unwrap();
        assert!(live.iter().all(|h: &toot_3d::ui::pool::OpaqueImg| h.get_id() != handle.get_id()));
        live.push(handle);
        if round % 3 == 2 {
            let gone = live.remove(round % live.len());
            pool.dealloc(gone, &mut mailbox);
        }
    }
}

#[test]
fn mailbox_hands_out_messages_in_the_order_sent() {
    let mut mailbox: Mailbox<u8, u8, u8> = Mailbox::new();
    mailbox.send(UiMsg::UnloadImage(3));
    mailbox.send(UiMsg::SetScreen(7));
    mailbox.send(UiMsg::UnloadImage(1));
    assert_eq!(mailbox.len(), 3);
    let (batch, running) = mailbox.drain_once();
    assert!(running);
    assert_eq!(batch.len(), 3);
    assert!(matches!(batch[0], UiMsg::UnloadImage(3)));
    assert!(matches!(batch[1], UiMsg::SetScreen(7)));
    assert!(matches!(batch[2], UiMsg::UnloadImage(1)));
    assert_eq!(mailbox.len(), 0);
    let (batch, running) = mailbox.drain_once();
    assert!(running && batch.is_empty());
}

#[test]
fn flush_ends_the_frame() {
    let mut mailbox: Mailbox<u8, u8, u8> = Mailbox::new();
    mailbox.send(UiMsg::SetScreen(1));
    mailbox.send(UiMsg::Flush);
    mailbox.send(UiMsg::SetScreen(2));
    mailbox.send(UiMsg::Flush);
    mailbox.send(UiMsg::Flush);
    let (batch, running) = mailbox.drain_once();
    assert!(running);
    assert_eq!(batch.len(), 1);
    assert!(matches!(batch[0], UiMsg::SetScreen(1)));
    assert_eq!(mailbox.len(), 3);
    let (batch, _) = mailbox.drain_once();
    assert!(matches!(batch[..], [UiMsg::SetScreen(2)]));
    let (batch, running) = mailbox.drain_once();
    assert!(batch.is_empty() && running);
    assert_eq!(mailbox.len(), 0);
}

#[test]
fn quit_ends_the_program() {
    let mut mailbox: Mailbox<u8, u8, u8> = Mailbox::new();
    mailbox.send(UiMsg::UnloadImage(4));
    mailbox.send(UiMsg::Quit);
    mailbox.send(UiMsg::UnloadImage(5));
    let (batch, running) = mailbox.drain_once();
    assert!(!running);
    assert!(matches!(batch[..], [UiMsg::UnloadImage(4)]));
    assert_eq!(mailbox.len(), 1);
}

use chess_lobby::fanout::{Fanout, Recv};
use chess_lobby::messages::Event;
use chess_lobby::types::{ChessMove, Square};

fn mv(source: u8, dest: u8) -> ChessMove {
    ChessMove {
        source: Square { index: source },
        dest: Square { index: dest },
        promotion: None,
    }
}

#[test]
fn subscriber_receives_in_publish_order_exactly_once() {
    let mut fanout = Fanout::new(8);
    let mut sub = fanout.subscribe();
    assert_eq!(fanout.poll(&mut sub), None);

    fanout.publish(Event::OpponentJoined);
    fanout.publish(Event::PlayedMove(mv(12, 28)));
    fanout.publish(Event::PlayedMove(mv(52, 36)));

    assert_eq!(fanout.poll(&mut sub), Some(Recv::Event(Event::OpponentJoined)));
    assert_eq!(
        fanout.poll(&mut sub),
        Some(Recv::Event(Event::PlayedMove(mv(12, 28))))
    );
    assert_eq!(
        fanout.poll(&mut sub),
        Some(Recv::Event(Event::PlayedMove(mv(52, 36))))
    );
    // each event came exactly once
    assert_eq!(fanout.poll(&mut sub), None);
}

#[test]
fn publishing_with_no_subscriber_is_not_an_error() {
    let mut fanout = Fanout::new(2);
    fanout.publish(Event::OpponentJoined);
    fanout.publish(Event::PlayedMove(mv(0, 1)));
    // a later subscriber sees only what comes after its subscription
    let mut sub = fanout.subscribe();
    assert_eq!(fanout.poll(&mut sub), None);
    fanout.publish(Event::PlayedMove(mv(1, 2)));
    assert_eq!(
        fanout.poll(&mut sub),
        Some(Recv::Event(Event::PlayedMove(mv(1, 2))))
    );
}

#[test]
fn lag_is_an_explicit_signal_not_a_silent_drop() {
    let mut fanout = Fanout::new(2);
    let mut sub = fanout.subscribe();
    fanout.publish(Event::PlayedMove(mv(0, 1)));
    fanout.publish(Event::PlayedMove(mv(1, 2)));
    fanout.publish(Event::PlayedMove(mv(2, 3)));
    fanout.publish(Event::PlayedMove(mv(3, 4)));
    fanout.publish(Event::PlayedMove(mv(4, 5)));

    // five events, window of two: the first three were missed
    assert_eq!(fanout.poll(&mut sub), Some(Recv::Lagged(3)));
    // the rest arrive in order
    assert_eq!(
        fanout.poll(&mut sub),
        Some(Recv::Event(Event::PlayedMove(mv(3, 4))))
    );
    assert_eq!(
        fanout.poll(&mut sub),
        Some(Recv::Event(Event::PlayedMove(mv(4, 5))))
    );
    assert_eq!(fanout.poll(&mut sub), None);
}

#[test]
fn two_subscribers_each_receive_every_event() {
    let mut fanout = Fanout::new(8);
    let mut first = fanout.subscribe();
    let mut second = fanout.subscribe();
    fanout.publish(Event::OpponentJoined);
    assert_eq!(fanout.poll(&mut first), Some(Recv::Event(Event::OpponentJoined)));
    assert_eq!(fanout.poll(&mut second), Some(Recv::Event(Event::OpponentJoined)));
    assert_eq!(fanout.poll(&mut first), None);
    assert_eq!(fanout.poll(&mut second), None);
}

use tick_scheduler::dispatch::{Action, Dispatcher};
use tick_scheduler::unit::ChannelUnit;

#[test]
fn tick_acknowledges_first_and_exactly_once() {
    let units = vec![
        ChannelUnit::new(vec![2, -2]),
        ChannelUnit::new(vec![5, -5]),
        ChannelUnit::new(vec![-3, 3]),
    ];
    let mut dispatcher = Dispatcher::new(units);

    for _ in 0..100 {
        let actions = dispatcher.on_tick();
        assert!(!actions.is_empty());
        assert_eq!(actions[0], Action::AckTimer);
        let acks = actions
            .iter()
            .filter(|a| matches!(a, Action::AckTimer))
            .count();
        assert_eq!(acks, 1);
    }
}

#[test]
fn first_tick_advances_every_channel_in_order() {
    let units = vec![
        ChannelUnit::new(vec![1000, -1200, 800]),
        ChannelUnit::new(vec![-890, 990]),
        ChannelUnit::new(vec![123, -555]),
    ];
    let mut dispatcher = Dispatcher::new(units);

    // Every countdown register starts at one, so the very first tick
    // advances all three channels, in channel order.
    let actions = dispatcher.on_tick();
    assert_eq!(
        actions,
        vec![
            Action::AckTimer,
            Action::SetLevel { channel: 0, high: true },
            Action::SetLevel { channel: 1, high: false },
            Action::SetLevel { channel: 2, high: true },
        ]
    );
    assert_eq!(dispatcher.channel_countdown(0), 1000);
    assert_eq!(dispatcher.channel_countdown(1), 890);
    assert_eq!(dispatcher.channel_countdown(2), 123);

    // The second tick only decrements; no level write is asked for.
    let actions = dispatcher.on_tick();
    assert_eq!(actions, vec![Action::AckTimer]);
    assert_eq!(dispatcher.channel_countdown(0), 999);
    assert_eq!(dispatcher.channel_countdown(1), 889);
    assert_eq!(dispatcher.channel_countdown(2), 122);
}

#[test]
fn channels_do_not_interfere() {
    let red = vec![1000, -1200, 800, -300, 100, -100, 200, -200, 140, -134];
    let yellow = vec![800, -300, 330, -370, 550, -880, 123, -555];
    let green = vec![
        -890, 990, -1111, 876, -345, 875, -432, 777, -321, 444, -1000, 100, -100,
    ];

    // The full channel set, serviced together.
    let mut together = Dispatcher::new(vec![
        ChannelUnit::new(red.clone()),
        ChannelUnit::new(yellow.clone()),
        ChannelUnit::new(green.clone()),
    ]);

    // The same channels, each running alone.
    let mut alone = [
        ChannelUnit::new(red.clone()),
        ChannelUnit::new(yellow),
        ChannelUnit::new(green),
    ];

    // A set whose other channels differ entirely, sharing only channel 0.
    let mut different_neighbors = Dispatcher::new(vec![
        ChannelUnit::new(red),
        ChannelUnit::new(vec![-17, 23]),
    ]);

    for _ in 0..5000 {
        together.on_tick();
        for unit in alone.iter_mut() {
            unit.tick();
        }
        different_neighbors.on_tick();

        for (i, unit) in alone.iter().enumerate() {
            assert_eq!(together.channel_level(i), unit.level());
            assert_eq!(together.channel_countdown(i), unit.countdown());
            assert_eq!(together.channel_cursor(i), unit.cursor());
        }
        assert_eq!(
            together.channel_level(0),
            different_neighbors.channel_level(0)
        );
    }
}

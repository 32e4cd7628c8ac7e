use dermixen_app::playback::{
    Playback, PlaybackState, TransportOrder, TransportState, TransportStatus,
};
use dermixen_app::units::Samples;

#[test]
fn playing_from_stopped_starts_at_the_playhead_and_records_it() {
    let mut playback = Playback::new(Samples(100));
    assert_eq!(
        playback.play(Samples(1000)),
        vec![TransportOrder::Start { at: Samples(100) }]
    );
    assert_eq!(playback.state(), PlaybackState::Playing);
    assert_eq!(playback.start_point(), Samples(100));
    assert_eq!(playback.play(Samples(1000)), vec![]);
}

#[test]
fn playing_from_past_the_end_starts_at_the_beginning() {
    let mut playback = Playback::new(Samples(1000));
    assert_eq!(
        playback.play(Samples(1000)),
        vec![TransportOrder::Start { at: Samples(0) }]
    );
    assert_eq!(playback.playhead(), Samples(0));
}

#[test]
fn stopping_returns_to_the_start_point_and_playing_again_plays_it_again() {
    let mut playback = Playback::new(Samples(100));
    playback.play(Samples(1000));
    playback.heard(&TransportStatus {
        position: Samples(400),
        state: TransportState::Playing,
    });
    assert_eq!(playback.playhead(), Samples(400));
    assert_eq!(playback.stop(Samples(1000)), vec![TransportOrder::Stop]);
    assert_eq!(playback.playhead(), Samples(100));
    assert_eq!(
        playback.play(Samples(1000)),
        vec![TransportOrder::Start { at: Samples(100) }]
    );
}

#[test]
fn stopping_a_mix_made_shorter_than_the_start_point_stops_at_its_end() {
    let mut playback = Playback::new(Samples(900));
    playback.play(Samples(1000));
    assert_eq!(playback.stop(Samples(500)), vec![TransportOrder::Stop]);
    assert_eq!(playback.playhead(), Samples(500));
    assert_eq!(playback.start_point(), Samples(500));
    assert_eq!(playback.stop(Samples(500)), vec![]);
}

#[test]
fn space_pauses_nothing_but_stops_and_resumes_a_pause() {
    let mut playback = Playback::new(Samples(0));
    playback.play(Samples(1000));
    assert_eq!(playback.pause(), vec![TransportOrder::Pause]);
    assert_eq!(playback.state(), PlaybackState::Paused);
    assert_eq!(playback.space(Samples(1000)), vec![TransportOrder::Resume]);
    assert_eq!(playback.space(Samples(1000)), vec![TransportOrder::Stop]);
    assert_eq!(playback.state(), PlaybackState::Stopped);
    assert_eq!(playback.pause(), vec![]);
}

#[test]
fn playing_after_the_end_goes_back_to_the_start_point() {
    let mut playback = Playback::new(Samples(200));
    playback.play(Samples(1000));
    playback.heard(&TransportStatus {
        position: Samples(1000),
        state: TransportState::Ended,
    });
    assert_eq!(playback.state(), PlaybackState::Ended);
    assert_eq!(
        playback.play(Samples(1000)),
        vec![TransportOrder::Seek { at: Samples(200) }, TransportOrder::Resume]
    );
}

#[test]
fn a_failed_transport_is_stopped_and_started_afresh() {
    let mut playback = Playback::new(Samples(200));
    playback.play(Samples(1000));
    playback.heard(&TransportStatus {
        position: Samples(300),
        state: TransportState::Failed("the device went away".to_owned()),
    });
    assert_eq!(
        playback.state(),
        PlaybackState::Failed("the device went away".to_owned())
    );
    assert_eq!(
        playback.play(Samples(1000)),
        vec![TransportOrder::Stop, TransportOrder::Start { at: Samples(200) }]
    );
}

#[test]
fn a_click_on_the_ruler_moves_a_running_transport_and_pauses_an_ended_one() {
    let mut playback = Playback::new(Samples(0));
    assert_eq!(playback.click_ruler(Samples(50)), vec![]);
    assert_eq!(playback.playhead(), Samples(50));
    playback.play(Samples(1000));
    playback.heard(&TransportStatus {
        position: Samples(1000),
        state: TransportState::Ended,
    });
    assert_eq!(
        playback.click_ruler(Samples(70)),
        vec![TransportOrder::Seek { at: Samples(70) }]
    );
    assert_eq!(playback.state(), PlaybackState::Paused);
    assert_eq!(playback.start_point(), Samples(70));
}

#[test]
fn a_report_while_stopped_is_ignored_and_buffering_shows_as_playing() {
    let mut playback = Playback::new(Samples(10));
    playback.heard(&TransportStatus {
        position: Samples(500),
        state: TransportState::Playing,
    });
    assert_eq!(playback.playhead(), Samples(10));
    playback.play(Samples(1000));
    playback.heard(&TransportStatus {
        position: Samples(20),
        state: TransportState::Buffering,
    });
    assert_eq!(playback.state(), PlaybackState::Playing);
    playback.could_not_start();
    assert_eq!(playback.state(), PlaybackState::Stopped);
    assert_eq!(playback.playhead(), Samples(20));
}

use dermixen_app::playback::transport_words;

#[test]
fn the_status_line_names_what_the_transport_is_doing() {
    assert_eq!(transport_words(None), "Stopped");
    assert_eq!(transport_words(Some(&TransportState::Buffering)), "Buffering");
    assert_eq!(
        transport_words(Some(&TransportState::Failed("no device".to_owned()))),
        "Stopped: no device"
    );
}

use cs2_buttplug::devices::{
    on_event, transport_for, BPCommand, ClientAction, ClientEvent, DeviceOrder,
    Transport,
};

#[test]
fn commands_drive_every_device() {
    let half = 0.5f64.to_bits();
    assert_eq!(
        on_event(ClientEvent::Command(BPCommand::Vibrate(half))),
        ClientAction::DriveAll(DeviceOrder::AllMotors(half))
    );
    assert_eq!(
        on_event(ClientEvent::Command(BPCommand::VibrateIndex(half, 2))),
        ClientAction::DriveAll(DeviceOrder::OneMotor(2, half))
    );
    assert_eq!(
        on_event(ClientEvent::Command(BPCommand::Stop)),
        ClientAction::DriveAll(DeviceOrder::AllMotorsOff)
    );
}

#[test]
fn a_lost_command_stops_the_devices() {
    assert_eq!(on_event(ClientEvent::CommandLost), ClientAction::DriveAll(DeviceOrder::AllMotorsOff));
}

#[test]
fn disconnect_and_close_end_the_session() {
    assert_eq!(on_event(ClientEvent::ServerDisconnect), ClientAction::Disconnect);
    assert_eq!(on_event(ClientEvent::CloseRequested), ClientAction::Disconnect);
}

#[test]
fn other_server_reports_are_only_noted() {
    assert_eq!(on_event(ClientEvent::DeviceAdded), ClientAction::KeepListening);
    assert_eq!(on_event(ClientEvent::OtherServerEvent), ClientAction::KeepListening);
}

#[test]
fn secure_transport_exactly_for_wss() {
    assert_eq!(transport_for("wss://intiface.example:12345"), Transport::Secure);
    assert_eq!(transport_for("wss://"), Transport::Secure);
    assert_eq!(transport_for("ws://127.0.0.1:12345"), Transport::Insecure);
    assert_eq!(transport_for("WSS://127.0.0.1:12345"), Transport::Insecure);
    assert_eq!(transport_for("wss:/"), Transport::Insecure);
    assert_eq!(transport_for(""), Transport::Insecure);
}

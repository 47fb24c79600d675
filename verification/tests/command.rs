use talk_loco_client::command::{BsonCommand, ReadBsonCommand};

#[test]
fn new_keeps_its_arguments() {
    let command = BsonCommand::new(String::from("CHECKIN"), 0, 7u8);
    assert_eq!(command.method, "CHECKIN");
    assert_eq!(command.data_type, 0);
    assert_eq!(command.data, 7);
}

#[test]
fn new_const_keeps_its_arguments() {
    let command = BsonCommand::new_const("LOGINLIST", -1, vec![1, 2, 3]);
    assert_eq!(command.method, "LOGINLIST");
    assert_eq!(command.data_type, -1);
    assert_eq!(command.data, vec![1, 2, 3]);
}

#[test]
fn read_command_carries_its_id() {
    let read = ReadBsonCommand { read_id: 7000, command: BsonCommand::new_const("MSG", 0, ()) };
    let copy = read.clone();
    assert_eq!(copy.read_id, 7000);
    assert_eq!(copy.command.method, "MSG");
}

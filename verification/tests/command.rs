use fonda::command::FondaCommand;

#[test]
fn flags_choose_their_commands() {
    assert_eq!(FondaCommand::from("-r"), FondaCommand::RunRequirements);
    assert_eq!(FondaCommand::from("-w"), FondaCommand::WriteRequirements);
    assert_eq!(FondaCommand::from("-f"), FondaCommand::CustomFile(String::new()));
}

#[test]
fn anything_else_provisions_from_the_default_manifest() {
    for flag in ["", "-v", "-x", "r", "-R", "-r ", "--help", "environment.yaml"] {
        assert_eq!(FondaCommand::from(flag), FondaCommand::CreateAndRun);
    }
}

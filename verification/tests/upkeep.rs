use dko_launcher::upkeep::{
    handler_is_installed, handler_missing, message_of_select, next_doctor_step, next_select_step, DoctorStep,
    SelectStep,
};

#[test]
fn a_selection_is_saved_after_it_was_verified() {
    let steps = [
        SelectStep::WaitForPlayer,
        SelectStep::ChooseGame,
        SelectStep::VerifyGame,
        SelectStep::Remember,
        SelectStep::Finish,
    ];
    let mut step = SelectStep::WaitForPlayer;
    for expected in steps {
        assert_eq!(step, expected);
        assert_eq!(next_select_step(step, false), SelectStep::Failed);
        step = next_select_step(step, true);
    }
    assert_eq!(step, SelectStep::Done);
    assert_eq!(next_select_step(SelectStep::Done, false), SelectStep::Done);
    assert_eq!(next_select_step(SelectStep::Failed, true), SelectStep::Failed);
    assert_eq!(message_of_select(SelectStep::ChooseGame), Some("Select the Divine Knockout executable"));
    assert_eq!(message_of_select(SelectStep::VerifyGame), Some("Verifying original game files"));
    assert_eq!(message_of_select(SelectStep::Remember), None);
}

#[test]
fn the_launcher_is_ready_after_every_check() {
    let steps = [
        DoctorStep::ReadSettings,
        DoctorStep::CheckHandler,
        DoctorStep::PreparePaths,
        DoctorStep::FindGame,
        DoctorStep::VerifyGame,
        DoctorStep::FetchManifest,
    ];
    let mut step = DoctorStep::ReadSettings;
    for expected in steps {
        assert_eq!(step, expected);
        assert_eq!(next_doctor_step(step, false), DoctorStep::Failed);
        step = next_doctor_step(step, true);
    }
    assert_eq!(step, DoctorStep::Done);
    assert_eq!(next_doctor_step(DoctorStep::Failed, true), DoctorStep::Failed);
}

#[test]
fn the_handler_must_be_this_launcher() {
    let entry = Some("a".to_owned());
    assert!(handler_is_installed(&entry, &entry, true));
    assert!(!handler_is_installed(&entry, &entry, false));
    assert!(!handler_is_installed(&Some("b".to_owned()), &entry, true));
    assert!(!handler_is_installed(&None, &entry, true));
    assert!(!handler_is_installed(&None, &None, true));
    assert_eq!(handler_missing(), "the project-knockout protocol handler is not installed; run setup again");
}

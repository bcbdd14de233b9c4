use powerlink::power::{
    battery_line, get_battery_status, get_best_path, parse_charge, read_battery_charge,
    read_lid_state, read_power_source, Error, LidState, Reading, BATTERY_CHARGE_PATH,
    FULL_CHARGE, LID_STATUS_PATH, POWER_SOURCE_PATH,
};

fn text(s: &str) -> Reading {
    Reading::Text(s.to_string())
}

#[test]
fn the_first_path_that_is_there_is_the_best() {
    let paths = ["a", "b", "c", "d"];
    assert_eq!(get_best_path(paths, [true, true, true, true]), Ok("a"));
    assert_eq!(get_best_path(paths, [false, true, false, true]), Ok("b"));
    assert_eq!(get_best_path(paths, [false, false, true, false]), Ok("c"));
    assert_eq!(get_best_path(paths, [false, false, false, true]), Ok("d"));
    assert_eq!(
        get_best_path(LID_STATUS_PATH, [false, true, true, false]),
        Ok("/proc/acpi/button/lid/LID0/state")
    );
}

#[test]
fn no_path_there_is_an_unknown_error() {
    assert_eq!(get_best_path(["a", "b", "c", "d"], [false; 4]), Err(Error::Unknown));
    assert_eq!(get_best_path(BATTERY_CHARGE_PATH, [false; 4]), Err(Error::Unknown));
}

#[test]
fn the_candidates_are_in_order() {
    assert_eq!(LID_STATUS_PATH[0], "/proc/acpi/button/lid/LID/state");
    assert_eq!(LID_STATUS_PATH[3], "/proc/acpi/button/lid/LID2/state");
    assert_eq!(BATTERY_CHARGE_PATH[0], "/sys/class/power_supply/BAT/capacity");
    assert_eq!(BATTERY_CHARGE_PATH[2], "/sys/class/power_supply/BAT1/capacity");
    assert_eq!(POWER_SOURCE_PATH[0], "/sys/class/power_supply/AC/online");
    assert_eq!(POWER_SOURCE_PATH[3], "/sys/class/power_supply/ACAD/online");
}

#[test]
fn the_lid_is_read_from_its_text() {
    assert_eq!(read_lid_state(text("state:      open\n")), Ok(LidState::Open));
    assert_eq!(read_lid_state(text("state:      closed\n")), Ok(LidState::Closed));
    assert_eq!(read_lid_state(text("closed and open")), Ok(LidState::Open));
    assert_eq!(read_lid_state(text("state:      ajar\n")), Ok(LidState::Unknown));
    assert_eq!(read_lid_state(text("")), Ok(LidState::Unknown));
    assert_eq!(read_lid_state(text("OPEN")), Ok(LidState::Unknown));
}

#[test]
fn a_machine_without_the_files_gets_the_stand_ins() {
    assert_eq!(read_lid_state(Reading::Missing), Ok(LidState::Unapplicable));
    assert_eq!(FULL_CHARGE, 100);
    assert_eq!(read_battery_charge(Reading::Missing), Ok(100));
    assert_eq!(read_power_source(Reading::Missing), Ok(true));
}

#[test]
fn a_file_that_cannot_be_read_is_an_io_error() {
    assert_eq!(read_lid_state(Reading::Failed), Err(Error::IO));
    assert_eq!(read_battery_charge(Reading::Failed), Err(Error::IO));
    assert_eq!(read_power_source(Reading::Failed), Err(Error::IO));
}

#[test]
fn the_charge_is_the_text_without_its_last_character() {
    assert_eq!(parse_charge("85\n"), Some(85));
    assert_eq!(parse_charge("100\n"), Some(100));
    assert_eq!(parse_charge("0\n"), Some(0));
    assert_eq!(parse_charge("85"), Some(8));
    assert_eq!(parse_charge("+5\n"), Some(5));
    assert_eq!(parse_charge("-0\n"), Some(0));
    assert_eq!(parse_charge("007\n"), Some(7));
    assert_eq!(parse_charge("1000"), Some(100));
}

#[test]
fn a_number_that_is_no_percentage_states_no_charge() {
    assert_eq!(parse_charge("101\n"), None);
    assert_eq!(parse_charge("127\n"), None);
    assert_eq!(parse_charge("128\n"), None);
    assert_eq!(parse_charge("-1\n"), None);
    assert_eq!(parse_charge("-5\n"), None);
    assert_eq!(parse_charge("-128\n"), None);
    assert_eq!(parse_charge("-129\n"), None);
    assert_eq!(parse_charge("1000\n"), None);
}

#[test]
fn a_text_that_is_no_number_states_no_charge() {
    assert_eq!(parse_charge(""), None);
    assert_eq!(parse_charge("\n"), None);
    assert_eq!(parse_charge("7"), None);
    assert_eq!(parse_charge("full\n"), None);
    assert_eq!(parse_charge("85\n\n"), None);
    assert_eq!(parse_charge("85%\n"), None);
    assert_eq!(parse_charge(" 85\n"), None);
    assert_eq!(parse_charge("8.5\n"), None);
}

#[test]
fn the_charge_is_read_from_its_text() {
    assert_eq!(read_battery_charge(text("85\n")), Ok(85));
    assert_eq!(read_battery_charge(text("100\n")), Ok(100));
    assert_eq!(read_battery_charge(text("0\n")), Ok(0));
    assert_eq!(read_battery_charge(text("5\n")), Ok(5));
    assert_eq!(read_battery_charge(text("42")), Ok(4));
}

#[test]
fn a_file_without_a_charge_is_an_unknown_error() {
    assert_eq!(read_battery_charge(text("127\n")), Err(Error::Unknown));
    assert_eq!(read_battery_charge(text("101\n")), Err(Error::Unknown));
    assert_eq!(read_battery_charge(text("-5\n")), Err(Error::Unknown));
    assert_eq!(read_battery_charge(text("-128\n")), Err(Error::Unknown));
    assert_eq!(read_battery_charge(text("full\n")), Err(Error::Unknown));
    assert_eq!(read_battery_charge(text("notanumber\n")), Err(Error::Unknown));
    assert_eq!(read_battery_charge(text("300\n")), Err(Error::Unknown));
    assert_eq!(read_battery_charge(text("\n")), Err(Error::Unknown));
    assert_eq!(read_battery_charge(text("")), Err(Error::Unknown));
}

#[test]
fn every_charge_is_a_percentage() {
    for n in i8::MIN..=i8::MAX {
        let got = read_battery_charge(text(&format!("{}\n", n)));
        if (0..=100).contains(&n) {
            assert_eq!(got, Ok(n));
        } else {
            assert_eq!(got, Err(Error::Unknown));
        }
    }
    for n in [128i32, 200, 255, 256, 1000, -129, -1000] {
        assert_eq!(read_battery_charge(text(&format!("{}\n", n))), Err(Error::Unknown));
    }
}

#[test]
fn the_power_source_is_read_from_its_text() {
    assert_eq!(read_power_source(text("1\n")), Ok(true));
    assert_eq!(read_power_source(text("0\n")), Ok(false));
    assert_eq!(read_power_source(text("1")), Ok(false));
    assert_eq!(read_power_source(text("11")), Ok(true));
    assert_eq!(read_power_source(text("")), Ok(false));
    assert_eq!(read_power_source(text("\n")), Ok(false));
    assert_eq!(read_power_source(text("10\n")), Ok(false));
    assert_eq!(read_power_source(text("1\u{e9}")), Ok(true));
}

#[test]
fn states_and_errors_have_names() {
    assert_eq!(LidState::Open.name(), "open");
    assert_eq!(LidState::Closed.name(), "closed");
    assert_eq!(LidState::Unapplicable.name(), "unapplicable");
    assert_eq!(LidState::Unknown.name(), "unknown");
    assert_eq!(Error::Unknown.name(), "Unknown");
    assert_eq!(Error::IO.name(), "IO");
    assert_eq!(Error::IO.name(), format!("{:?}", Error::IO));
    assert_eq!(Error::Unknown.name(), format!("{:?}", Error::Unknown));
}

#[test]
fn the_status_line_shows_its_value() {
    assert_eq!(battery_line("50%"), "Battery: 50%");
    assert_eq!(battery_line(""), "Battery: ");
    assert_eq!(battery_line("\u{1b}[1mN/A\u{1b}[0m"), "Battery: \u{1b}[1mN/A\u{1b}[0m");
}

#[test]
fn an_unreadable_charge_is_reported() {
    assert_eq!(
        get_battery_status(Some(Err(Error::IO)), true),
        "Battery charge could not be read\nIO"
    );
    assert_eq!(
        get_battery_status(Some(Err(Error::Unknown)), false),
        "Battery charge could not be read\nUnknown"
    );
}

#[test]
fn the_status_follows_the_colour_switch() {
    colored::control::set_override(true);
    assert_eq!(get_battery_status(Some(Ok(50)), true), "Battery: \u{1b}[32m50%\u{1b}[0m");
    assert_eq!(get_battery_status(Some(Ok(50)), false), "Battery: \u{1b}[31m50%\u{1b}[0m");
    assert_eq!(get_battery_status(Some(Ok(-3)), false), "Battery: \u{1b}[31m-3%\u{1b}[0m");
    assert_eq!(get_battery_status(Some(Ok(100)), true), "Battery: \u{1b}[32m100%\u{1b}[0m");
    assert_eq!(get_battery_status(None, true), "Battery: \u{1b}[1mN/A\u{1b}[0m");
    assert_eq!(get_battery_status(None, false), "Battery: \u{1b}[1mN/A\u{1b}[0m");
    colored::control::set_override(false);
    assert_eq!(get_battery_status(Some(Ok(50)), true), "Battery: 50%");
    assert_eq!(get_battery_status(Some(Ok(50)), false), "Battery: 50%");
    assert_eq!(get_battery_status(Some(Ok(-128)), false), "Battery: -128%");
    assert_eq!(get_battery_status(None, true), "Battery: N/A");
    colored::control::unset_override();
}

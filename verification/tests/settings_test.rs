use open_course::ui::settings::{
    batch_choice_index, next_field, parse_age_setting, parse_batch_setting, prev_field,
    SettingError,
};

#[test]
fn age_setting_accepts_14_to_100_or_nothing() {
    assert_eq!(parse_age_setting(""), Ok(None));
    assert_eq!(parse_age_setting("   "), Ok(None));
    assert_eq!(parse_age_setting(" 30 "), Ok(Some(30)));
    assert_eq!(parse_age_setting("14"), Ok(Some(14)));
    assert_eq!(parse_age_setting("100"), Ok(Some(100)));
    assert_eq!(parse_age_setting("13"), Err(SettingError::InvalidAge));
    assert_eq!(parse_age_setting("101"), Err(SettingError::InvalidAge));
    assert_eq!(parse_age_setting("thirty"), Err(SettingError::InvalidAge));
    assert_eq!(parse_age_setting("-5"), Err(SettingError::InvalidAge));
}

#[test]
fn batch_setting_accepts_2_to_5() {
    assert_eq!(parse_batch_setting("3"), Ok(3));
    assert_eq!(parse_batch_setting(" 5\n"), Ok(5));
    assert_eq!(parse_batch_setting("1"), Err(SettingError::BatchRange));
    assert_eq!(parse_batch_setting("6"), Err(SettingError::BatchRange));
    assert_eq!(parse_batch_setting(""), Err(SettingError::InvalidBatch));
    assert_eq!(parse_batch_setting("x"), Err(SettingError::InvalidBatch));
}

#[test]
fn field_selection_wraps_around() {
    assert_eq!(next_field(0, 3), 1);
    assert_eq!(next_field(2, 3), 0);
    assert_eq!(prev_field(0, 3), 2);
    assert_eq!(prev_field(2, 3), 1);
    assert_eq!(prev_field(next_field(2, 3), 3), 2);
    assert_eq!(next_field(0, 1), 0);
}

#[test]
fn batch_choice_index_is_clamped() {
    assert_eq!(batch_choice_index(0), 0);
    assert_eq!(batch_choice_index(2), 0);
    assert_eq!(batch_choice_index(4), 2);
    assert_eq!(batch_choice_index(9), 3);
}

#[test]
fn field_selection_wraps_from_any_position() {
    assert_eq!(next_field(5, 3), 0);
    assert_eq!(prev_field(5, 3), 1);
}

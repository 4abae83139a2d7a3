use village_economy::simulation::simulation_settings::{
    parse_int, parse_line, strip, strips, SettingKey, SettingLine,
};

fn chars(text: &str) -> Vec<char> {
    text.chars().collect()
}

fn text(value: &Vec<char>) -> String {
    value.iter().collect()
}

fn entry(line: &str) -> (SettingKey, String) {
    match parse_line(line) {
        SettingLine::Entry { key, value } => (key, text(&value)),
        _ => panic!("no entry in {}", line),
    }
}

struct Settings {
    food_per_worker: f64,
    wood_per_house: f64,
    workers_per_house: u32,
    stone_per_house: f64,
    wood_to_build_house: f64,
    stone_to_build_house: f64,
    avg_worker_age: u32,
    percent_offspring_chance: f64,
}

fn read(lines: &[&str]) -> Settings {
    let mut settings = Settings {
        food_per_worker: 1.0,
        wood_per_house: 1.0,
        workers_per_house: 2,
        stone_per_house: 1.0,
        wood_to_build_house: 1.0,
        stone_to_build_house: 1.0,
        avg_worker_age: 10,
        percent_offspring_chance: 10.0,
    };
    for line in lines {
        if let SettingLine::Entry { key, value } = parse_line(line) {
            if key.holds_integer() {
                if let Some(number) = parse_int(&value) {
                    match key {
                        SettingKey::WorkersPerHouse => settings.workers_per_house = number,
                        SettingKey::AvgWorkerAge => settings.avg_worker_age = number,
                        _ => unreachable!(),
                    }
                }
            } else if let Ok(number) = text(&value).parse::<f64>() {
                match key {
                    SettingKey::FoodPerWorker => settings.food_per_worker = number,
                    SettingKey::WoodPerHouse => settings.wood_per_house = number,
                    SettingKey::StonePerHouse => settings.stone_per_house = number,
                    SettingKey::WoodToBuildHouse => settings.wood_to_build_house = number,
                    SettingKey::StoneToBuildHouse => settings.stone_to_build_house = number,
                    SettingKey::PercentOffspringChance => {
                        settings.percent_offspring_chance = number
                    }
                    _ => unreachable!(),
                }
            }
        }
    }
    settings
}

#[test]
fn read_in_settings() {
    let settings = read(&[
        "food_per_worker: 0.25",
        "wood_per_house: 0.25",
        "workers_per_house: 4",
        "stone_per_house: 0.25",
        "",
        "wood_to_build_house: 10",
        "stone_to_build_house: 10",
        "avg_worker_age: 50",
        "percent_offspring_chance: 5",
    ]);
    assert_eq!(settings.food_per_worker, 0.25);
    assert_eq!(settings.wood_per_house, 0.25);
    assert_eq!(settings.workers_per_house, 4);
    assert_eq!(settings.stone_per_house, 0.25);
    assert_eq!(settings.wood_to_build_house, 10.0);
    assert_eq!(settings.stone_to_build_house, 10.0);
    assert_eq!(settings.avg_worker_age, 50);
    assert_eq!(settings.percent_offspring_chance, 5.0);
}

#[test]
fn what_cannot_be_read_keeps_the_default() {
    let settings = read(&[
        "workers_per_house: four",
        "avg_worker_age: -3",
        "food_per_worker: much",
        "houses_per_worker: 3",
        "wood_per_house",
        ": 7",
        "stone_per_house: 0.5",
    ]);
    assert_eq!(settings.workers_per_house, 2);
    assert_eq!(settings.avg_worker_age, 10);
    assert_eq!(settings.food_per_worker, 1.0);
    assert_eq!(settings.wood_per_house, 1.0);
    assert_eq!(settings.stone_per_house, 0.5);
}

#[test]
fn every_setting_is_found_under_its_name() {
    let names = [
        ("food_per_worker", SettingKey::FoodPerWorker, false),
        ("wood_per_house", SettingKey::WoodPerHouse, false),
        ("workers_per_house", SettingKey::WorkersPerHouse, true),
        ("stone_per_house", SettingKey::StonePerHouse, false),
        ("wood_to_build_house", SettingKey::WoodToBuildHouse, false),
        ("stone_to_build_house", SettingKey::StoneToBuildHouse, false),
        ("avg_worker_age", SettingKey::AvgWorkerAge, true),
        ("percent_offspring_chance", SettingKey::PercentOffspringChance, false),
    ];
    for (name, key, whole) in names {
        assert_eq!(Some(key), SettingKey::from_name(&chars(name)));
        assert_eq!(whole, key.holds_integer());
    }
    assert_eq!(None, SettingKey::from_name(&chars("food_per_worke")));
    assert_eq!(None, SettingKey::from_name(&chars("food_per_workers")));
    assert_eq!(None, SettingKey::from_name(&chars("Food_per_worker")));
    assert_eq!(None, SettingKey::from_name(&chars("")));
}

#[test]
fn whitespace_is_stripped_wherever_it_stands() {
    assert_eq!("a:b", text(&strip(" a : b ")));
    assert_eq!("ab:cd", text(&strip("\ta b :\tc d\r\n")));
    assert_eq!("", text(&strip(" \t \r\n")));
    assert_eq!("", text(&strip("")));
    assert!(strips(' ') && strips('\t') && strips('\r') && strips('\n'));
    assert!(!strips('a') && !strips(':') && !strips('0') && !strips('_'));
}

#[test]
fn a_line_is_a_name_and_a_value_with_a_colon_between() {
    assert_eq!((SettingKey::AvgWorkerAge, "50".to_string()), entry("avg_worker_age:50"));
    assert_eq!((SettingKey::AvgWorkerAge, "50".to_string()), entry("  avg_worker_age :  5 0 "));
    assert_eq!((SettingKey::FoodPerWorker, "0.25".to_string()), entry("food_per_worker:0.25"));
    assert_eq!((SettingKey::FoodPerWorker, "x".to_string()), entry("food_per_worker:x:y:z"));
    assert_eq!((SettingKey::WoodPerHouse, "1".to_string()), entry("wood _ per _ house\t:1\r"));
}

#[test]
fn blank_lines_say_nothing() {
    assert!(matches!(parse_line(""), SettingLine::Blank));
    assert!(matches!(parse_line("   "), SettingLine::Blank));
    assert!(matches!(parse_line("\t\r\n"), SettingLine::Blank));
}

#[test]
fn lines_without_a_name_or_a_value_are_malformed() {
    assert!(matches!(parse_line("avg_worker_age"), SettingLine::Malformed));
    assert!(matches!(parse_line("avg_worker_age:"), SettingLine::Malformed));
    assert!(matches!(parse_line("avg_worker_age: "), SettingLine::Malformed));
    assert!(matches!(parse_line(":50"), SettingLine::Malformed));
    assert!(matches!(parse_line(":"), SettingLine::Malformed));
    assert!(matches!(parse_line("avg_worker_age::50"), SettingLine::Malformed));
    assert!(matches!(parse_line("nothing_at_all"), SettingLine::Malformed));
}

#[test]
fn unknown_names_are_handed_back() {
    match parse_line("houses per worker: 3") {
        SettingLine::Unknown { name } => assert_eq!("housesperworker", text(&name)),
        _ => panic!("the name is not known"),
    }
}

#[test]
fn whole_numbers_are_digits_with_or_without_a_plus() {
    assert_eq!(Some(0), parse_int(&chars("0")));
    assert_eq!(Some(4), parse_int(&chars("4")));
    assert_eq!(Some(50), parse_int(&chars("50")));
    assert_eq!(Some(50), parse_int(&chars("+50")));
    assert_eq!(Some(7), parse_int(&chars("007")));
    assert_eq!(Some(4294967295), parse_int(&chars("4294967295")));
    assert_eq!(Some(4294967295), parse_int(&chars("+0004294967295")));
}

#[test]
fn anything_else_is_no_whole_number() {
    assert_eq!(None, parse_int(&chars("")));
    assert_eq!(None, parse_int(&chars("+")));
    assert_eq!(None, parse_int(&chars("-3")));
    assert_eq!(None, parse_int(&chars("++3")));
    assert_eq!(None, parse_int(&chars("3+")));
    assert_eq!(None, parse_int(&chars("12a")));
    assert_eq!(None, parse_int(&chars("a12")));
    assert_eq!(None, parse_int(&chars("1.5")));
    assert_eq!(None, parse_int(&chars("1_000")));
    assert_eq!(None, parse_int(&chars("4294967296")));
    assert_eq!(None, parse_int(&chars("99999999999999999999999999")));
    assert_eq!(None, parse_int(&chars("42949672950")));
}

#[test]
fn whole_numbers_read_as_the_standard_library_reads_them() {
    let texts = [
        "0", "1", "+1", "-1", "", "+", "10", "0010", "4294967295", "4294967296", "1 0", "١٢",
        "1e3", "0x10", "18446744073709551616",
    ];
    for text in texts {
        assert_eq!(text.parse::<u32>().ok(), parse_int(&chars(text)), "{}", text);
    }
}

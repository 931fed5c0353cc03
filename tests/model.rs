use srcomapi::model::{
    game_link, CategoryData, CategoryType, Leaderboard, LeaderboardEntry, LevelData, Link, ReadStatus,
};
use srcomapi::variable::{Filter, ValueData, VariableData};
use srcomapi::ApiError;

fn link(rel: &str, uri: &str) -> Link {
    Link { rel: rel.to_string(), uri: uri.to_string() }
}

#[test]
fn single_game_link_is_found() {
    let links = vec![link("self", "s"), link("game", "g"), link("runs", "r")];
    assert_eq!(game_link(&links).unwrap(), "g");
}

#[test]
fn missing_or_repeated_game_link_is_an_error() {
    assert!(matches!(game_link(&vec![link("self", "s")]), Err(ApiError::MissingGameRel)));
    assert!(matches!(game_link(&vec![]), Err(ApiError::MissingGameRel)));
    let twice = vec![link("game", "a"), link("game", "b")];
    assert!(matches!(game_link(&twice), Err(ApiError::MissingGameRel)));
}

#[test]
fn category_kind_and_game() {
    let c = CategoryData {
        id: "c1".to_string(),
        links: vec![link("game", "https://api/games/g1")],
        name: "Any%".to_string(),
        cat_type: CategoryType::PerLevel,
    };
    assert!(c.is_il());
    assert_eq!(c.id(), "c1");
    assert_eq!(c.game_uri().unwrap(), "https://api/games/g1");
    let l = LevelData { id: "l1".to_string(), links: vec![], name: "World 1".to_string() };
    assert_eq!(l.id(), "l1");
    assert!(matches!(l.game_uri(), Err(ApiError::MissingGameRel)));
}

#[test]
fn leaderboard_head_and_ties() {
    let lb = Leaderboard {
        runs: vec![
            LeaderboardEntry { place: 1, run: "a" },
            LeaderboardEntry { place: 1, run: "b" },
            LeaderboardEntry { place: 3, run: "c" },
        ],
    };
    assert!(lb.wr_is_tied());
    assert_eq!(lb.clone().into_runs(), vec!["a", "b", "c"]);
    assert_eq!(lb.wr(), Some("a"));
    let single = Leaderboard { runs: vec![LeaderboardEntry { place: 1, run: 5 }] };
    assert!(!single.wr_is_tied());
    let empty: Leaderboard<u8> = Leaderboard { runs: vec![] };
    assert!(!empty.wr_is_tied());
    assert_eq!(empty.wr(), None);
}

#[test]
fn read_status() {
    assert!(ReadStatus::Read.is_read());
    assert!(!ReadStatus::Unread.is_read());
}

fn variable() -> VariableData {
    VariableData::new(
        "v1".to_string(),
        "Platform".to_string(),
        vec![
            ("pc".to_string(), ValueData { label: "PC".to_string(), rules: None }),
            ("n64".to_string(), ValueData { label: "N64".to_string(), rules: Some("Console only".to_string()) }),
        ],
        Some("n64".to_string()),
    )
}

#[test]
fn variable_values_and_default() {
    let v = variable();
    assert_eq!(v.id(), "v1");
    assert_eq!(v.name(), "Platform");
    let values = v.values();
    assert_eq!(values.len(), 2);
    assert_eq!(values[0].id(), "pc");
    assert_eq!(values[0].label(), "PC");
    assert_eq!(values[0].rules(), None);
    assert_eq!(values[1].rules(), Some("Console only"));
    let d = v.default_value().unwrap();
    assert_eq!(d.id(), "n64");
    assert_eq!(d.label(), "N64");
}

#[test]
fn default_value_absent_or_unlisted() {
    let none = VariableData::new("v".to_string(), "n".to_string(), vec![], None);
    assert!(none.default_value().is_none());
    let unlisted = VariableData::new("v".to_string(), "n".to_string(), vec![], Some("x".to_string()));
    assert!(unlisted.default_value().is_none());
}

#[test]
fn filter_prefixes_variable_ids() {
    let f = Filter::from_pairs(&vec![
        ("abc".to_string(), "v1".to_string()),
        ("def".to_string(), "v2".to_string()),
        ("abc".to_string(), "v3".to_string()),
    ]);
    let pairs = f.query_pairs();
    assert_eq!(
        pairs,
        vec![
            ("var-abc".to_string(), "v3".to_string()),
            ("var-def".to_string(), "v2".to_string()),
        ]
    );
    assert!(Filter::new().query_pairs().is_empty());
}

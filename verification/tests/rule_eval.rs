use agent_client::json::{json_equal, Json, Number};
use agent_client::rule_eval::{
    canonical_actions, canonical_action, check_rule_file, condition, conditions_holding,
    validate_action, Canonical,
    Extra, Intent, Me, RuleGroundItem, RuleItem, RuleMonster, RulePlayer, RuleWorld, Subject,
};

/// The order key of a double, as the caller computes it.
fn key(f: f64) -> u64 {
    let bits = (if f == 0.0 { 0.0 } else { f }).to_bits();
    if bits >> 63 == 1 {
        !bits
    } else {
        bits | (1 << 63)
    }
}

fn integer(n: i128) -> Json {
    Json::Num(Number::Int(n, key(n as f64)))
}

fn float(f: f64) -> Json {
    Json::Num(Number::Float(key(f)))
}

fn text(s: &str) -> Json {
    Json::Str(s.to_string())
}

fn obj(fields: Vec<(&str, Json)>) -> Json {
    Json::Obj(fields.into_iter().map(|(k, v)| (k.to_string(), v)).collect())
}

fn r(name: &str) -> Json {
    obj(vec![("ref", text(name))])
}

fn num(n: i128) -> Number {
    Number::Int(n, key(n as f64))
}

fn monster(id: &str, kind: &str, level: i128, dist: f32) -> RuleMonster {
    RuleMonster {
        id: id.to_string(),
        kind: kind.to_string(),
        level: num(level),
        health_pct: num(100),
        distance: Number::Float(key(dist as f64)),
        dist_key: (dist * dist).to_bits(),
    }
}

fn world() -> RuleWorld {
    RuleWorld {
        me: Some(Me { health_pct: num(20), level: num(5) }),
        gold: Some(num(120)),
        monsters: vec![
            monster("ogre-1", "ogre", 12, 3.0),
            monster("kobold-far", "kobold", 1, 9.0),
            monster("kobold-near", "kobold", 1, 2.0),
        ],
        bag: vec![
            RuleItem { item: "bread".to_string(), quantity: num(3) },
            RuleItem { item: "healing_potion".to_string(), quantity: num(2) },
        ],
        players: vec![RulePlayer {
            id: num(7),
            name: "Ada".to_string(),
            distance: Number::Float(key(4.0)),
        }],
        ground_items: vec![
            RuleGroundItem { id: num(41), item: "bone".to_string(), distance: Number::Float(key(1.0)) },
            RuleGroundItem { id: num(42), item: "coin".to_string(), distance: Number::Float(key(5.0)) },
        ],
    }
}

fn holds(c: &Json) -> bool {
    condition(c, &world(), Subject::Nothing)
}

fn cmp(op: &str, a: Json, b: Json) -> Json {
    obj(vec![(op, Json::Arr(vec![a, b]))])
}

#[test]
fn booleans_and_the_connectives() {
    assert!(holds(&Json::Bool(true)));
    assert!(!holds(&Json::Bool(false)));
    assert!(holds(&obj(vec![("all", Json::Arr(vec![]))])), "nothing to fail");
    assert!(!holds(&obj(vec![("any", Json::Arr(vec![]))])), "nothing to hold");
    assert!(holds(&obj(vec![("not", Json::Bool(false))])));
    assert!(!holds(&obj(vec![("all", Json::Arr(vec![Json::Bool(true), Json::Bool(false)]))])));
    assert!(holds(&obj(vec![("any", Json::Arr(vec![Json::Bool(false), Json::Bool(true)]))])));
}

#[test]
fn anything_else_does_not_hold() {
    assert!(!holds(&integer(1)));
    assert!(!holds(&Json::Null));
    assert!(!holds(&obj(vec![("not", Json::Bool(false)), ("all", Json::Arr(vec![]))])), "two keys");
    assert!(!holds(&obj(vec![("all", Json::Bool(true))])), "all needs an array");
    assert!(!holds(&obj(vec![("maybe", Json::Bool(true))])));
    assert!(!holds(&obj(vec![("eq", Json::Arr(vec![integer(1)]))])), "a comparison takes two operands");
}

#[test]
fn comparisons_read_references() {
    assert!(holds(&cmp("lt", r("self.health_pct"), integer(30))));
    assert!(!holds(&cmp("gte", r("self.health_pct"), integer(30))));
    assert!(holds(&cmp("eq", r("self.level"), integer(5))));
    assert!(holds(&cmp("gt", r("self.gold"), float(99.5))), "an integer against a double");
    assert!(holds(&cmp("eq", r("self.nonsense"), Json::Null)), "an unknown reference reads null");
    assert!(holds(&cmp("eq", r("monster.id"), Json::Null)), "no monster in hand");
}

#[test]
fn equality_is_json_equality() {
    assert!(!holds(&cmp("eq", integer(1), float(1.0))), "an integer never equals a double");
    assert!(holds(&cmp("ne", integer(1), float(1.0))));
    assert!(holds(&cmp("lte", integer(1), float(1.0))), "but they order as the same value");
    assert!(!holds(&cmp("lt", text("a"), text("b"))), "only numbers are ordered");
    let a = obj(vec![("x", integer(1)), ("y", text("z"))]);
    let b = obj(vec![("y", text("z")), ("x", integer(1))]);
    assert!(json_equal(&a, &b), "objects compare as maps");
    assert!(holds(&cmp("eq", a, b)));
}

#[test]
fn exists_looks_for_a_candidate_the_where_admits() {
    let weak = obj(vec![(
        "exists",
        obj(vec![
            ("select", text("monsters")),
            ("where", cmp("lte", r("monster.level"), integer(3))),
        ]),
    )]);
    assert!(holds(&weak));
    let huge = obj(vec![(
        "exists",
        obj(vec![
            ("select", text("monsters")),
            ("where", cmp("gt", r("monster.level"), integer(20))),
        ]),
    )]);
    assert!(!holds(&huge));
    let potion = obj(vec![(
        "exists",
        obj(vec![
            ("select", text("bag")),
            ("where", cmp("eq", r("item.id"), text("healing_potion"))),
        ]),
    )]);
    assert!(holds(&potion));
    let anyone = obj(vec![("exists", obj(vec![("select", text("players"))]))]);
    assert!(holds(&anyone), "no where admits every candidate");
    let nothing = obj(vec![("exists", obj(vec![("select", text("chests"))]))]);
    assert!(!holds(&nothing), "an unknown pool is empty");
}

#[test]
fn every_rule_condition_is_read_against_the_world() {
    let conditions = vec![Json::Bool(false), cmp("lt", r("self.health_pct"), integer(30)), integer(3)];
    assert_eq!(conditions_holding(&conditions, &world()), vec![false, true, false]);
}

fn act(c: Result<Canonical, String>) -> (String, Vec<(String, Json)>, Option<Extra>) {
    match c {
        Ok(Canonical::Act(a)) => (a.kind, a.fields, a.extra),
        other => panic!("expected an action, got {other:?}"),
    }
}

#[test]
fn an_intent_becomes_a_walk() {
    let w = world();
    assert!(matches!(
        canonical_action(obj(vec![("intent", text("flee"))]), &w),
        Ok(Canonical::Walk(Intent::Flee))
    ));
    assert!(matches!(
        canonical_action(obj(vec![("intent", text("patrol"))]), &w),
        Ok(Canonical::Walk(Intent::Patrol))
    ));
    assert!(matches!(
        canonical_action(obj(vec![("intent", text("return_to_anchor"))]), &w),
        Ok(Canonical::Walk(Intent::ReturnToAnchor))
    ));
    assert_eq!(
        canonical_action(obj(vec![("intent", text("dance"))]), &w).unwrap_err(),
        "unknown intent 'dance'"
    );
    assert_eq!(
        canonical_action(obj(vec![("intent", integer(3))]), &w).unwrap_err(),
        "intent must be a string"
    );
}

#[test]
fn an_action_needs_an_object_and_a_kind() {
    let w = world();
    assert_eq!(canonical_action(text("attack"), &w).unwrap_err(), "action must be an object");
    assert_eq!(
        canonical_action(obj(vec![("x", integer(1))]), &w).unwrap_err(),
        "action type is required"
    );
    assert_eq!(
        canonical_action(obj(vec![("action", integer(1)), ("type", text("wait"))]), &w).unwrap_err(),
        "action type is required",
        "a present action field decides, even when it is no string"
    );
    let (kind, fields, extra) =
        act(canonical_action(obj(vec![("action", text("move")), ("x", integer(4)), ("type", text("wait"))]), &w));
    assert_eq!(kind, "move");
    assert_eq!(fields.len(), 1);
    assert_eq!(fields[0].0, "x");
    assert!(extra.is_none());
}

#[test]
fn an_attack_goes_for_the_nearest_monster_its_target_admits() {
    let w = world();
    let target = obj(vec![
        ("select", text("monsters")),
        ("where", cmp("lte", r("monster.level"), integer(3))),
    ]);
    let (kind, fields, extra) =
        act(canonical_action(obj(vec![("type", text("attack")), ("target", target)]), &w));
    assert_eq!(kind, "attack");
    assert!(fields.is_empty(), "the target is resolved away");
    assert!(matches!(extra, Some(Extra::MonsterId(id)) if id == "kobold-near"));

    let (_, _, extra) = act(canonical_action(
        obj(vec![("type", text("attack")), ("target", obj(vec![("select", text("monsters"))]))]),
        &w,
    ));
    assert!(matches!(extra, Some(Extra::MonsterId(id)) if id == "kobold-near"), "every monster is admitted, and the nearest wins");

    let mut blind = world();
    blind.me = None;
    let (_, _, extra) = act(canonical_action(
        obj(vec![("type", text("attack")), ("target", obj(vec![("select", text("monsters"))]))]),
        &blind,
    ));
    assert!(matches!(extra, Some(Extra::MonsterId(id)) if id == "ogre-1"), "unmeasured, the first");
}

#[test]
fn an_attack_without_a_target_or_a_match_fails() {
    let w = world();
    assert_eq!(
        canonical_action(obj(vec![("type", text("attack"))]), &w).unwrap_err(),
        "attack target is required"
    );
    let none = obj(vec![
        ("select", text("monsters")),
        ("where", cmp("gt", r("monster.level"), integer(50))),
    ]);
    assert_eq!(
        canonical_action(obj(vec![("type", text("attack")), ("target", none)]), &w).unwrap_err(),
        "attack selector matched no monster"
    );
    let (_, fields, extra) =
        act(canonical_action(obj(vec![("type", text("attack")), ("monster_id", text("m-9"))]), &w));
    assert_eq!(fields.len(), 1, "a named monster is left as it is");
    assert!(extra.is_none());
}

#[test]
fn use_and_pickup_take_the_first_match() {
    let w = world();
    let sel = obj(vec![
        ("select", text("bag")),
        ("where", cmp("eq", r("item.id"), text("healing_potion"))),
    ]);
    let (kind, fields, extra) = act(canonical_action(obj(vec![("type", text("use")), ("item", sel)]), &w));
    assert_eq!(kind, "use");
    assert!(fields.is_empty());
    assert!(matches!(extra, Some(Extra::Item(Json::Str(s))) if s == "healing_potion"));

    let ground = obj(vec![("select", text("ground_items"))]);
    let (_, _, extra) = act(canonical_action(obj(vec![("type", text("pickup")), ("target", ground)]), &w));
    assert!(
        matches!(extra, Some(Extra::Item(Json::Num(Number::Int(41, _))))),
        "the nearest lying item"
    );

    let missing = obj(vec![
        ("select", text("bag")),
        ("where", cmp("eq", r("item.id"), text("elixir"))),
    ]);
    assert_eq!(
        canonical_action(obj(vec![("type", text("use")), ("item", missing)]), &w).unwrap_err(),
        "use selector matched no bag item"
    );
    assert_eq!(
        canonical_action(
            obj(vec![("type", text("pickup")), ("item", obj(vec![("select", text("bag"))]))]),
            &w
        )
        .unwrap_err(),
        "pickup selector matched no ground item"
    );
    let (_, fields, extra) = act(canonical_action(obj(vec![("type", text("use")), ("item", text("bread"))]), &w));
    assert_eq!(fields.len(), 1, "a named item is left as it is");
    assert!(extra.is_none());
}

#[test]
fn a_selector_left_over_is_refused() {
    let w = world();
    assert_eq!(
        canonical_action(
            obj(vec![("type", text("move")), ("x", obj(vec![("select", text("monsters"))]))]),
            &w
        )
        .unwrap_err(),
        "unresolved selector in 'move' action"
    );
}

#[test]
fn at_most_eight_actions_and_the_first_failure_fails_all() {
    let w = world();
    let waits: Vec<Json> = (0..9).map(|_| obj(vec![("type", text("wait"))])).collect();
    assert_eq!(canonical_actions(waits, &w).unwrap().len(), 8);
    let mixed = vec![
        obj(vec![("type", text("wait"))]),
        obj(vec![("type", text("attack"))]),
        obj(vec![("intent", text("dance"))]),
    ];
    assert_eq!(canonical_actions(mixed, &w).unwrap_err(), "attack target is required");
}

#[test]
fn validation_checks_what_can_be_checked_before_the_world() {
    assert!(matches!(validate_action(obj(vec![("intent", text("flee"))])), Ok(None)));
    assert_eq!(
        validate_action(obj(vec![("intent", text("dance"))])).unwrap_err(),
        "unknown intent 'dance'"
    );
    assert_eq!(
        validate_action(obj(vec![("type", text("attack")), ("target", obj(vec![("select", text("bag"))]))]))
            .unwrap_err(),
        "attack target must select monsters"
    );
    match validate_action(obj(vec![("type", text("attack")), ("target", obj(vec![("select", text("monsters"))]))])) {
        Ok(Some(a)) => {
            assert_eq!(a.kind, "attack");
            assert!(a.fields.is_empty());
            assert!(matches!(a.extra, Some(Extra::AnyMonster)));
        }
        other => panic!("expected an attack to parse, got {other:?}"),
    }
    assert_eq!(
        validate_action(obj(vec![("type", text("use")), ("item", obj(vec![("select", text("ground_items"))]))]))
            .unwrap_err(),
        "use selector must select bag"
    );
    assert_eq!(
        validate_action(obj(vec![("type", text("pickup")), ("target", obj(vec![("select", text("bag"))]))]))
            .unwrap_err(),
        "pickup selector must select ground_items"
    );
    assert!(matches!(
        validate_action(obj(vec![("type", text("pickup")), ("target", obj(vec![("select", text("ground_items"))]))])),
        Ok(None)
    ));
    match validate_action(obj(vec![("type", text("move")), ("x", integer(1))])) {
        Ok(Some(a)) => assert_eq!((a.kind.as_str(), a.fields.len()), ("move", 1)),
        other => panic!("expected a move to parse, got {other:?}"),
    }
}

#[test]
fn a_rule_file_is_checked_header_first_then_action_by_action() {
    let wait = || obj(vec![("type", text("wait"))]);
    assert_eq!(
        check_rule_file("openmmo-worker", 1, &vec![0, 10, 5], vec![vec![wait()], vec![], vec![wait(), wait()]]),
        Ok(vec![1, 2, 0])
    );
    assert_eq!(
        check_rule_file("other", 1, &vec![0], vec![vec![obj(vec![("intent", text("dance"))])]]),
        Err("unsupported worker format 'other'".to_string()),
        "the header is checked before any action"
    );
    assert_eq!(
        check_rule_file(
            "openmmo-worker",
            1,
            &vec![0, 0],
            vec![
                vec![wait(), obj(vec![("intent", text("dance"))])],
                vec![obj(vec![("type", text("attack"))])],
            ]
        ),
        Err("unknown intent 'dance'".to_string()),
        "the first failing action in file order"
    );
    assert_eq!(
        check_rule_file("openmmo-worker", 2, &vec![], vec![]),
        Err("unsupported worker version 2".to_string())
    );
}

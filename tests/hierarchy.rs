use std::any::{Any, TypeId};

use dynasty::identity::{identity_of, same_identity};
use dynasty::reflection::{assign_field, field_not_found};
use dynasty::{
    Class, ClassInfo, Downcast, DynastyError, Inherits, Reflect, ReflectionData, Registry,
    SafeDowncast, Value, ValueKind,
};

#[derive(Debug)]
struct Entity {
    id: u64,
    name: String,
}

#[derive(Debug)]
struct Character {
    base: Entity,
    health: f32,
    level: u32,
}

#[derive(Debug)]
struct Player {
    base: Character,
    experience: u32,
}

impl Class for Entity {
    fn class_info() -> ClassInfo {
        ClassInfo::new("Entity", None, identity_of::<Entity>())
    }
}

impl Class for Character {
    fn class_info() -> ClassInfo {
        ClassInfo::new("Character", Some(identity_of::<Entity>()), identity_of::<Character>())
    }
}

impl Class for Player {
    fn class_info() -> ClassInfo {
        ClassInfo::new("Player", Some(identity_of::<Character>()), identity_of::<Player>())
    }
}

impl Inherits<Entity> for Character {
    fn as_parent(&self) -> &Entity {
        &self.base
    }

    fn as_parent_mut(&mut self) -> &mut Entity {
        &mut self.base
    }
}

impl Inherits<Character> for Player {
    fn as_parent(&self) -> &Character {
        &self.base
    }

    fn as_parent_mut(&mut self) -> &mut Character {
        &mut self.base
    }
}

impl Reflect for Player {
    fn get_field(&self, name: &str) -> Option<Value> {
        match name {
            "experience" => Some(Value::U32(self.experience)),
            _ => None,
        }
    }

    fn set_field(&mut self, name: &str, value: Value) -> Result<(), DynastyError> {
        match name {
            "experience" => assign_field(&mut self.experience, value),
            _ => Err(field_not_found(name)),
        }
    }
}

struct Transform {
    position: (f32, f32, f32),
}

struct GameObject {
    base: Entity,
    transform: Transform,
}

impl Class for GameObject {
    fn class_info() -> ClassInfo {
        ClassInfo::new("GameObject", Some(identity_of::<Entity>()), identity_of::<GameObject>())
    }
}

impl Transform {
    fn class_info_for_tests() -> ClassInfo {
        ClassInfo::new("Transform", None, identity_of::<Transform>())
    }
}

fn test_player(id: u64, name: &str, experience: u32) -> Player {
    Player {
        base: Character {
            base: Entity {
                id,
                name: name.to_string(),
            },
            health: 100.0,
            level: 1,
        },
        experience,
    }
}

fn hierarchy() -> Registry {
    let mut registry = Registry::new();
    registry.register(Entity::class_info());
    registry.register(Character::class_info());
    registry.register(Player::class_info());
    registry
}

#[test]
fn test_basic_inheritance() {
    let entity = Entity {
        id: 1,
        name: "Test Entity".to_string(),
    };

    let character = Character {
        base: Entity {
            id: 2,
            name: "Test Character".to_string(),
        },
        health: 100.0,
        level: 1,
    };

    assert_eq!(entity.id, 1);
    assert_eq!(character.base.id, 2);
    assert_eq!(character.health, 100.0);
    assert_eq!(entity.name, "Test Entity");
    assert_eq!(character.level, 1);
}

#[test]
fn test_multilevel_inheritance() {
    let player = test_player(3, "Test Player", 0);

    assert_eq!(player.base.base.id, 3);
    assert_eq!(player.base.health, 100.0);
    assert_eq!(player.experience, 0);
    assert_eq!(player.as_parent().as_parent().name, "Test Player");
}

#[test]
fn test_class_registry() {
    let entity_info = Entity::class_info();
    let character_info = Character::class_info();

    assert_eq!(entity_info.name, "Entity");
    assert_eq!(character_info.name, "Character");
    assert!(character_info.parent.is_some());
}

#[test]
fn test_type_checking() {
    let player = test_player(4, "Test Player", 0);

    assert_eq!((&player as &dyn Any).type_id(), TypeId::of::<Player>());
    assert_eq!((&player.base as &dyn Any).type_id(), TypeId::of::<Character>());
    assert_eq!((&player.base.base as &dyn Any).type_id(), TypeId::of::<Entity>());

    let as_character = (&player.base as &dyn Any).downcast_ref::<Character>();
    assert!(as_character.is_some());
}

#[test]
fn test_game_patterns() {
    let game_object = GameObject {
        base: Entity {
            id: 6,
            name: "Game Object".to_string(),
        },
        transform: Transform {
            position: (0.0, 0.0, 0.0),
        },
    };

    assert_eq!(game_object.transform.position, (0.0, 0.0, 0.0));
    assert_eq!(game_object.base.name, "Game Object");
    assert_eq!(GameObject::class_info().parent, Some(TypeId::of::<Entity>()));
}

#[test]
fn test_reflection() {
    let player = test_player(5, "Reflected Player", 100);

    if let Some(exp_field) = player.get_field("experience") {
        if let Some(exp_value) = exp_field.downcast_ref::<u32>() {
            assert_eq!(*exp_value, 100);
        } else {
            panic!("Failed to downcast experience field to u32");
        }
    } else {
        panic!("Failed to get experience field");
    }

    assert!(player.get_field("nonexistent").is_none());
}

#[test]
fn registry_lookup_returns_record_of_that_identity() {
    let registry = hierarchy();
    for id in [identity_of::<Entity>(), identity_of::<Character>(), identity_of::<Player>()] {
        let info = registry.get(id).expect("registered");
        assert_eq!(info.type_id, id);
    }
    assert_eq!(registry.len(), 3);
    assert!(registry.get(identity_of::<GameObject>()).is_none());
}

#[test]
fn register_replaces_record_of_same_identity() {
    let mut registry = hierarchy();
    registry.register(ClassInfo::new("Hero", None, identity_of::<Player>()));
    assert_eq!(registry.len(), 3);
    let info = registry.get(identity_of::<Player>()).unwrap();
    assert_eq!(info.name, "Hero");
    assert_eq!(info.parent, None);
    assert!(!registry.is_subclass_of(identity_of::<Player>(), identity_of::<Entity>()));
}

#[test]
fn get_by_name_finds_first_match_or_nothing() {
    let mut registry = hierarchy();
    registry.register(ClassInfo::new("Entity", None, identity_of::<GameObject>()));
    let found = registry.get_by_name("Entity").unwrap();
    assert_eq!(found.type_id, identity_of::<Entity>());
    assert_eq!(registry.get_by_name("Character").unwrap().type_id, identity_of::<Character>());
    assert!(registry.get_by_name("Missing").is_none());
    assert!(Registry::new().get_by_name("Entity").is_none());
}

#[test]
fn subclass_through_two_links() {
    let registry = hierarchy();
    let (e, c, p) = (identity_of::<Entity>(), identity_of::<Character>(), identity_of::<Player>());
    assert!(registry.is_subclass_of(p, e));
    assert!(registry.is_subclass_of(p, c));
    assert!(registry.is_subclass_of(c, e));
    assert!(!registry.is_subclass_of(e, c));
    assert!(!registry.is_subclass_of(c, p));
}

#[test]
fn subclass_is_false_for_self_and_unrelated() {
    let mut registry = hierarchy();
    registry.register(Transform::class_info_for_tests());
    let (e, p, t) = (identity_of::<Entity>(), identity_of::<Player>(), identity_of::<Transform>());
    assert!(!registry.is_subclass_of(e, e));
    assert!(!registry.is_subclass_of(p, p));
    assert!(!registry.is_subclass_of(p, t));
    assert!(!registry.is_subclass_of(t, e));
    assert!(!registry.is_subclass_of(identity_of::<GameObject>(), e));
}

#[test]
fn subclass_self_loop_and_cycles_terminate() {
    let mut registry = Registry::new();
    let (a, b) = (identity_of::<Entity>(), identity_of::<Character>());
    registry.register(ClassInfo::new("A", Some(a), a));
    assert!(registry.is_subclass_of(a, a));
    registry.register(ClassInfo::new("A", Some(b), a));
    registry.register(ClassInfo::new("B", Some(a), b));
    assert!(registry.is_subclass_of(a, b));
    assert!(registry.is_subclass_of(a, a));
    assert!(!registry.is_subclass_of(a, identity_of::<Player>()));
}

#[test]
fn subclass_stops_at_unregistered_parent() {
    let mut registry = Registry::new();
    registry.register(Player::class_info());
    registry.register(Entity::class_info());
    assert!(registry.is_subclass_of(identity_of::<Player>(), identity_of::<Character>()));
    assert!(!registry.is_subclass_of(identity_of::<Player>(), identity_of::<Entity>()));
}

#[test]
fn downcast_checks_exact_type() {
    let v = Value::U32(42);
    assert!(v.is::<u32>());
    assert!(!v.is::<u64>());
    assert_eq!(v.downcast_ref::<u32>(), Some(&42));
    assert_eq!(v.downcast_ref::<u64>(), None);
    assert_eq!(v.downcast_ref::<i32>(), None);
    assert_eq!(v.runtime_kind(), ValueKind::U32);
    let t = Value::Text("oops".to_string());
    assert_eq!(t.downcast_ref::<String>().map(|s| s.as_str()), Some("oops"));
    assert_eq!(t.downcast_ref::<u32>(), None);
    assert_eq!(Value::Bool(true).downcast_ref::<bool>(), Some(&true));
    assert_eq!(Value::I64(-7).downcast_ref::<i64>(), Some(&-7));
    assert_eq!(Value::Usize(9).downcast_ref::<usize>(), Some(&9));
}

#[test]
fn downcast_of_player_handle_to_ancestor_is_absent() {
    let player = test_player(7, "Hero", 1);
    let handle: &dyn Any = &player;
    assert!(handle.downcast_ref::<Character>().is_none());
    assert!(handle.downcast_ref::<Player>().is_some());
    let registry = hierarchy();
    assert!(registry.is_subclass_of(identity_of::<Player>(), identity_of::<Entity>()));
}

#[test]
fn set_field_then_get_field() {
    let mut player = test_player(8, "Reflected Player", 100);
    assert_eq!(player.set_field("experience", Value::U32(42)), Ok(()));
    assert_eq!(player.get_field("experience"), Some(Value::U32(42)));
    assert_eq!(player.experience, 42);

    let err = player.set_field("experience", Value::Text("oops".to_string()));
    assert_eq!(
        err,
        Err(DynastyError::TypeMismatch {
            expected: "u32".to_string(),
            found: "String".to_string(),
        })
    );
    assert_eq!(player.get_field("experience"), Some(Value::U32(42)));
}

#[test]
fn set_unknown_field_is_field_not_found() {
    let mut player = test_player(9, "P", 3);
    assert_eq!(
        player.set_field("nonexistent", Value::U32(1)),
        Err(DynastyError::FieldNotFound("nonexistent".to_string()))
    );
    assert_eq!(player.experience, 3);
}

#[test]
fn assign_field_checks_kind() {
    let mut slot: u64 = 5;
    assert_eq!(assign_field(&mut slot, Value::U64(6)), Ok(()));
    assert_eq!(slot, 6);
    assert_eq!(
        assign_field(&mut slot, Value::I32(1)),
        Err(DynastyError::TypeMismatch {
            expected: "u64".to_string(),
            found: "i32".to_string(),
        })
    );
    assert_eq!(slot, 6);
}

#[test]
fn kind_names() {
    assert_eq!(ValueKind::Bool.name(), "bool");
    assert_eq!(ValueKind::Usize.name(), "usize");
    assert_eq!(ValueKind::Text.name(), "String");
    assert_eq!(Value::I64(1).kind(), ValueKind::I64);
}

#[test]
fn reflection_tables_replace_by_name() {
    let mut data = ReflectionData::new::<Player>();
    assert_eq!(data.field_count(), 0);
    data.add_field("experience", TypeId::of::<u32>(), 24);
    data.add_field("level", TypeId::of::<u32>(), 28);
    data.add_field("experience", TypeId::of::<u64>(), 16);
    assert_eq!(data.field_count(), 2);
    let f = data.field("experience").unwrap();
    assert_eq!(f.name, "experience");
    assert_eq!(f.type_id, TypeId::of::<u64>());
    assert_eq!(f.offset, 16);
    assert_eq!(data.field("level").unwrap().offset, 28);
    assert!(data.field("health").is_none());

    data.add_method("level_up", "fn(&mut self)");
    data.add_method("level_up", "fn(&mut self, u32)");
    data.add_method("heal", "fn(&mut self, f32)");
    assert_eq!(data.method_count(), 2);
    assert_eq!(data.method("level_up").unwrap().signature, "fn(&mut self, u32)");
    assert!(data.method("attack").is_none());

    let copy = data.clone();
    assert_eq!(copy.field_count(), 2);
    assert_eq!(copy.method("heal").unwrap().signature, "fn(&mut self, f32)");
}

#[test]
fn class_record_ids_are_version_four_and_fresh() {
    let a = Entity::class_info();
    let b = Entity::class_info();
    assert_eq!((a.id >> 76) & 0xf, 4);
    assert_eq!((a.id >> 62) & 3, 2);
    assert_ne!(a.id, b.id);
    assert_eq!(a.type_id, b.type_id);
    let copy = a.clone();
    assert_eq!(copy.id, a.id);
    assert_eq!(copy.name, "Entity");
}

#[test]
fn identities_compare_by_type() {
    assert!(same_identity(&identity_of::<Player>(), &TypeId::of::<Player>()));
    assert!(!same_identity(&identity_of::<Player>(), &identity_of::<Character>()));
}

#[test]
fn downcast_mut_writes_through() {
    let mut v = Value::U32(1);
    if let Some(x) = v.downcast_mut::<u32>() {
        *x = 9;
    }
    assert_eq!(v, Value::U32(9));
    assert!(v.downcast_mut::<u64>().is_none());
    assert_eq!(v, Value::U32(9));
}

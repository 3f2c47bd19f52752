use flecs_ecs::id::{ecs_pair, ECS_CHILD_OF};
use flecs_ecs::observer::Observers;
use flecs_ecs::{ComponentId, ComponentInfo, EntityView, EnumConstant, World};

#[derive(Clone, Copy)]
enum Color {
    Red,
    Green,
    Blue,
}

impl ComponentId for Color {
    const TYPE_KEY: u64 = 200;
    const SIZE: usize = 4;
    const ALIGNMENT: usize = 4;
    const IS_ENUM: bool = true;
    const CONSTANTS: u32 = 3;
}

impl EnumConstant for Color {
    fn index(&self) -> u32 {
        match self {
            Color::Red => 0,
            Color::Green => 1,
            Color::Blue => 2,
        }
    }
}

struct Paint;

impl ComponentId for Paint {
    const TYPE_KEY: u64 = 201;
    const SIZE: usize = 0;
    const ALIGNMENT: usize = 0;
    const IS_ENUM: bool = false;
    const CONSTANTS: u32 = 0;
}

#[test]
fn enum_registration_creates_one_entity_for_each_constant() {
    let mut world = World::new();
    let before = world.count();
    let color = world.get_or_register::<Color>();
    assert_eq!(color as usize, before);
    assert_eq!(world.count(), before + 4);
    assert_eq!(world.constant_of::<Color>(0), color + 1);
    assert_eq!(world.constant_of::<Color>(2), color + 3);
    for i in 0..3u64 {
        let constant = EntityView::new_from(&world, color + 1 + i);
        assert_eq!(constant.parent().id().0, color);
        assert_eq!(
            constant.archetype().as_slice().to_vec(),
            vec![ecs_pair(ECS_CHILD_OF, color), color]
        );
        assert_eq!(constant.to_constant::<Color>(), &(i as u32).to_le_bytes());
        assert_eq!(constant.try_to_constant::<Color>(), Some(&(i as u32).to_le_bytes()[..]));
    }
    assert_eq!(world.get_or_register::<Color>(), color);
    assert_eq!(world.count(), before + 4);
}

#[test]
fn enum_value_is_read_from_the_constant_or_from_the_entity() {
    let mut world = World::new();
    let observers = Observers::new();
    let color = world.get_or_register::<Color>();
    world.get_or_register::<Paint>();
    let green = world.constant_of::<Color>(Color::Green.index());

    let related = world.entity_new();
    EntityView::add_id(&mut world, &observers, related, ecs_pair(color, green));
    let view = EntityView::new_from(&world, related);
    assert!(view.has::<Color>());
    assert!(view.has_enum(Color::Green));
    assert!(!view.has_enum(Color::Red));
    assert!(!view.has_enum(Color::Blue));
    assert!(view.has_enum_id(color, Color::Green));
    assert!(!view.has_pair_enum::<Paint, Color>(Color::Green));
    assert_eq!(view.try_get::<Color>(), Some(&1u32.to_le_bytes()[..]));
    assert_eq!(view.get::<Color>(), &1u32.to_le_bytes());

    let holder = world.entity_new();
    EntityView::set_id(&mut world, &observers, holder, color, &2u32.to_le_bytes());
    let view = EntityView::new_from(&world, holder);
    assert!(!view.has::<Color>());
    assert_eq!(view.try_get::<Color>(), Some(&2u32.to_le_bytes()[..]));

    let neither = world.entity_new();
    assert_eq!(EntityView::new_from(&world, neither).try_get::<Color>(), None);
    assert_eq!(EntityView::new_from(&world, neither).try_to_constant::<Color>(), None);

    let paint = world.id_of::<Paint>();
    EntityView::add_id(&mut world, &observers, neither, ecs_pair(paint, green));
    assert!(EntityView::new_from(&world, neither).has_pair_enum::<Paint, Color>(Color::Green));

    EntityView::get_mut::<Color>(&mut world, related)[0] = 7;
    assert_eq!(
        EntityView::new_from(&world, green).get::<Color>(),
        &[7u8, 0, 0, 0]
    );
    EntityView::try_get_mut::<Color>(&mut world, holder).unwrap()[0] = 5;
    assert_eq!(EntityView::new_from(&world, holder).get::<Color>(), &[5u8, 0, 0, 0]);
}

#[test]
fn descriptions_say_what_a_component_is() {
    assert!(ComponentInfo::tag(1).is_well_formed());
    assert!(ComponentInfo::tag(1).is_tag);
    let data = ComponentInfo::data(2, 8, 4);
    assert!(data.is_well_formed() && !data.is_tag && !data.is_enum);
    assert!(ComponentInfo::data(2, 0, 0).is_tag);
    let e = ComponentInfo::enumeration(3, 5);
    assert!(e.is_well_formed() && e.is_enum && e.size == 4 && e.constants == 5);
    assert_eq!(ComponentInfo::of::<Color>(), e_with_key(200, 3));
    let broken = ComponentInfo { is_tag: true, ..data };
    assert!(!broken.is_well_formed());
    let broken = ComponentInfo { constants: 2, ..data };
    assert!(!broken.is_well_formed());
    let broken = ComponentInfo { size: 8, ..ComponentInfo::enumeration(3, 1) };
    assert!(!broken.is_well_formed());
    let broken = ComponentInfo { alignment: 0, ..data };
    assert!(!broken.is_well_formed());
}

fn e_with_key(key: u64, constants: u32) -> ComponentInfo {
    ComponentInfo::enumeration(key, constants)
}

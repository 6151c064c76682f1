use prefab_editor::format::deserialize::{deserialize_events, PrefabError};
use prefab_editor::format::serialize::{serialize, PrefabSerializer, StorageSerializer};
use prefab_editor::format::{
    ComponentEntry, ComponentOverrideEntry, DeError, EntityEntry, EntityOverrideEntry, PrefabDoc,
    PrefabEntry, PrefabObject, PrefabRefEntry, Section, StorageEvent,
};
use prefab_editor::prefab::reader::read_prefab_refs;
use prefab_editor::prefab::{read_prefab, PrefabDeserializeContext, PrefabStorageError};

const PREFAB: [u8; 16] = [1; 16];
const OTHER_PREFAB: [u8; 16] = [2; 16];
const ENTITY_A: [u8; 16] = [3; 16];
const ENTITY_B: [u8; 16] = [4; 16];
const POSITION: [u8; 16] = [5; 16];
const SCALE: [u8; 16] = [6; 16];

fn text(id: [u8; 16]) -> String {
    uuid::Uuid::from_bytes(id).to_string()
}

type Data = &'static str;

fn sample_doc() -> PrefabDoc<Data, String> {
    let reference = vec![
        PrefabRefEntry::PrefabId(text(OTHER_PREFAB)),
        PrefabRefEntry::EntityOverrides(vec![vec![
            EntityOverrideEntry::EntityId(text(ENTITY_A)),
            EntityOverrideEntry::ComponentOverrides(vec![vec![
                ComponentOverrideEntry::ComponentType(text(SCALE)),
                ComponentOverrideEntry::Diff("scale diff"),
            ]]),
        ]]),
    ];
    let entity_a = vec![
        EntityEntry::Id(text(ENTITY_A)),
        EntityEntry::Components(vec![
            vec![ComponentEntry::Type(text(POSITION)), ComponentEntry::Data("a position")],
            vec![ComponentEntry::Type(text(SCALE)), ComponentEntry::Data("a scale")],
        ]),
    ];
    let entity_b = vec![
        EntityEntry::Id(text(ENTITY_B)),
        EntityEntry::Components(vec![vec![ComponentEntry::Type(text(POSITION)), ComponentEntry::Data("b position")]]),
    ];
    PrefabDoc {
        entries: vec![
            PrefabEntry::Id(text(PREFAB)),
            PrefabEntry::Objects(vec![
                PrefabObject::PrefabRef(reference),
                PrefabObject::Entity(entity_a),
                PrefabObject::Entity(entity_b),
            ]),
        ],
    }
}

fn expected_events() -> Vec<StorageEvent<Data>> {
    vec![
        StorageEvent::BeginPrefabRef { prefab: PREFAB, target_prefab: OTHER_PREFAB },
        StorageEvent::ApplyComponentDiff {
            parent_prefab: PREFAB,
            prefab_ref: OTHER_PREFAB,
            entity: ENTITY_A,
            component_type: SCALE,
            data: "scale diff",
        },
        StorageEvent::EndPrefabRef { prefab: PREFAB, target_prefab: OTHER_PREFAB },
        StorageEvent::BeginEntityObject { prefab: PREFAB, entity: ENTITY_A },
        StorageEvent::DeserializeComponent { prefab: PREFAB, entity: ENTITY_A, component_type: POSITION, data: "a position" },
        StorageEvent::DeserializeComponent { prefab: PREFAB, entity: ENTITY_A, component_type: SCALE, data: "a scale" },
        StorageEvent::EndEntityObject { prefab: PREFAB, entity: ENTITY_A },
        StorageEvent::BeginEntityObject { prefab: PREFAB, entity: ENTITY_B },
        StorageEvent::DeserializeComponent { prefab: PREFAB, entity: ENTITY_B, component_type: POSITION, data: "b position" },
        StorageEvent::EndEntityObject { prefab: PREFAB, entity: ENTITY_B },
    ]
}

fn context() -> PrefabDeserializeContext {
    PrefabDeserializeContext { registered_components: vec![POSITION, SCALE] }
}

#[test]
fn reading_makes_the_calls_in_file_order() {
    let (events, err) = deserialize_events(sample_doc());
    assert_eq!(err, None);
    assert_eq!(events, expected_events());
}

#[test]
fn written_prefab_reads_back_as_its_storage() {
    let (result, built) = read_prefab(sample_doc(), context());
    assert!(result.is_ok());
    let written = serialize(&built.prefab, PREFAB);
    assert_eq!(written, sample_doc());
    let (events, err) = deserialize_events(written);
    assert_eq!(err, None);
    assert_eq!(events, expected_events());
}

#[test]
fn written_prefab_lists_references_before_entities() {
    let (_, built) = read_prefab(sample_doc(), context());
    let doc = serialize(&built.prefab, PREFAB);
    assert_eq!(doc.entries.len(), 2);
    assert_eq!(doc.entries[0], PrefabEntry::Id(text(PREFAB)));
    match &doc.entries[1] {
        PrefabEntry::Objects(objects) => {
            assert_eq!(objects.len(), 3);
            assert!(matches!(objects[0], PrefabObject::PrefabRef(_)));
            assert!(matches!(objects[1], PrefabObject::Entity(_)));
            assert!(matches!(objects[2], PrefabObject::Entity(_)));
        }
        other => panic!("unexpected entry {:?}", other),
    }
}

#[test]
fn prefab_serializer_writes_the_same_file() {
    let (_, built) = read_prefab(sample_doc(), context());
    let serializer = PrefabSerializer::new(PREFAB, &built.prefab);
    let doc: PrefabDoc<Data, String> = serializer.serialize();
    assert_eq!(doc, serialize(&built.prefab, PREFAB));
}

#[test]
fn prefab_as_storage_lists_its_contents() {
    let (_, built) = read_prefab(sample_doc(), context());
    let p = &built.prefab;
    assert_eq!(StorageSerializer::<Data>::entities(p), vec![ENTITY_A, ENTITY_B]);
    assert_eq!(StorageSerializer::<Data>::component_types(p, &ENTITY_A), vec![POSITION, SCALE]);
    assert_eq!(StorageSerializer::<Data>::component_types(p, &[42; 16]), Vec::<[u8; 16]>::new());
    assert_eq!(p.serialize_entity_component(&ENTITY_A, &SCALE), "a scale");
    assert_eq!(StorageSerializer::<Data>::prefab_refs(p), vec![OTHER_PREFAB]);
    assert_eq!(StorageSerializer::<Data>::prefab_ref_overrides(p, &OTHER_PREFAB), vec![(ENTITY_A, vec![SCALE])]);
    assert_eq!(p.serialize_component_override_diff(&OTHER_PREFAB, &ENTITY_A, &SCALE), "scale diff");
}

#[test]
fn reference_reader_collects_references() {
    let (result, refs) = read_prefab_refs(sample_doc());
    assert!(result.is_ok());
    assert_eq!(refs, vec![OTHER_PREFAB]);
}

#[test]
fn read_prefab_builds_entities_and_overrides() {
    let (result, built) = read_prefab(sample_doc(), context());
    assert!(result.is_ok());
    assert_eq!(built.prefab.prefab_id(), Some(PREFAB));
    assert_eq!(built.prefab.world.entity_count, 2);
    assert_eq!(built.prefab.world.components.len(), 3);
    let meta = built.prefab.prefab_meta.as_ref().unwrap();
    let a = *meta.entities.get(&ENTITY_A).unwrap();
    let b = *meta.entities.get(&ENTITY_B).unwrap();
    assert_eq!(a.index, 0);
    assert_eq!(b.index, 1);
    assert_eq!(built.prefab.world.components[0], (a, POSITION, "a position"));
    assert_eq!(built.prefab.world.components[2], (b, POSITION, "b position"));
    let reference = meta.prefab_refs.get(&OTHER_PREFAB).unwrap();
    let overrides = reference.overrides.get(&ENTITY_A).unwrap();
    assert_eq!(overrides.len(), 1);
    assert_eq!(overrides[0].component_type, SCALE);
    assert_eq!(overrides[0].data, "scale diff");
}

#[test]
fn read_prefab_refuses_unregistered_component() {
    let (result, built) = read_prefab(sample_doc(), PrefabDeserializeContext { registered_components: vec![POSITION] });
    match result {
        Err(PrefabError::Storage(PrefabStorageError::UnregisteredComponent(t))) => assert_eq!(t, SCALE),
        other => panic!("unexpected result {:?}", other),
    }
    // The first component of entity A was read before the refusal.
    assert_eq!(built.prefab.world.components.len(), 1);
}

fn doc(entries: Vec<PrefabEntry<String, String>>) -> PrefabDoc<String, String> {
    PrefabDoc { entries }
}

#[test]
fn duplicate_prefab_id_is_an_error() {
    let d = doc(vec![PrefabEntry::Id(text(PREFAB)), PrefabEntry::Id(text(PREFAB))]);
    let (events, err) = deserialize_events(d);
    assert!(events.is_empty());
    assert_eq!(err, Some(DeError::DuplicateField(Section::Prefab)));
}

#[test]
fn objects_before_id_is_an_error() {
    let d = doc(vec![PrefabEntry::Objects(vec![]), PrefabEntry::Id(text(PREFAB))]);
    let (_, err) = deserialize_events(d);
    assert_eq!(err, Some(DeError::FieldOutOfOrder(Section::Prefab)));
}

#[test]
fn missing_objects_is_an_error() {
    let d = doc(vec![PrefabEntry::Id(text(PREFAB))]);
    let (_, err) = deserialize_events(d);
    assert_eq!(err, Some(DeError::MissingField(Section::Prefab)));
}

#[test]
fn invalid_uuid_is_an_error() {
    let d = doc(vec![PrefabEntry::Id("not a uuid".to_string())]);
    let (_, err) = deserialize_events(d);
    assert_eq!(err, Some(DeError::InvalidUuid(Section::Prefab)));
}

#[test]
fn empty_objects_is_a_valid_prefab() {
    let d = doc(vec![PrefabEntry::Id(text(PREFAB)), PrefabEntry::Objects(vec![])]);
    let (events, err) = deserialize_events(d);
    assert!(events.is_empty());
    assert_eq!(err, None);
}

#[test]
fn component_missing_data_stops_after_entity_begin() {
    let entity = vec![
        EntityEntry::Id(text(ENTITY_A)),
        EntityEntry::Components(vec![vec![ComponentEntry::Type(text(POSITION))]]),
    ];
    let d = doc(vec![PrefabEntry::Id(text(PREFAB)), PrefabEntry::Objects(vec![PrefabObject::Entity(entity)])]);
    let (events, err) = deserialize_events(d);
    assert_eq!(events, vec![StorageEvent::BeginEntityObject { prefab: PREFAB, entity: ENTITY_A }]);
    assert_eq!(err, Some(DeError::MissingField(Section::Component)));
}

#[test]
fn component_data_before_type_is_an_error() {
    let entity = vec![
        EntityEntry::Id(text(ENTITY_A)),
        EntityEntry::Components(vec![vec![ComponentEntry::Data("x".to_string()), ComponentEntry::Type(text(POSITION))]]),
    ];
    let d = doc(vec![PrefabEntry::Id(text(PREFAB)), PrefabEntry::Objects(vec![PrefabObject::Entity(entity)])]);
    let (_, err) = deserialize_events(d);
    assert_eq!(err, Some(DeError::FieldOutOfOrder(Section::Component)));
}

#[test]
fn duplicate_entity_id_is_an_error() {
    let entity = vec![EntityEntry::Id(text(ENTITY_A)), EntityEntry::Id(text(ENTITY_B))];
    let d = doc(vec![PrefabEntry::Id(text(PREFAB)), PrefabEntry::Objects(vec![PrefabObject::Entity(entity)])]);
    let (_, err) = deserialize_events(d);
    assert_eq!(err, Some(DeError::DuplicateField(Section::Entity)));
}

#[test]
fn prefab_ref_errors_are_reported_in_their_section() {
    let reference = vec![PrefabRefEntry::EntityOverrides(vec![])];
    let d = doc(vec![PrefabEntry::Id(text(PREFAB)), PrefabEntry::Objects(vec![PrefabObject::PrefabRef(reference)])]);
    let (_, err) = deserialize_events(d);
    assert_eq!(err, Some(DeError::FieldOutOfOrder(Section::PrefabRef)));

    let override_entity = vec![EntityOverrideEntry::EntityId("bad".to_string())];
    let reference = vec![
        PrefabRefEntry::PrefabId(text(OTHER_PREFAB)),
        PrefabRefEntry::EntityOverrides(vec![override_entity]),
    ];
    let d = doc(vec![PrefabEntry::Id(text(PREFAB)), PrefabEntry::Objects(vec![PrefabObject::PrefabRef(reference)])]);
    let (events, err) = deserialize_events(d);
    assert_eq!(events, vec![StorageEvent::BeginPrefabRef { prefab: PREFAB, target_prefab: OTHER_PREFAB }]);
    assert_eq!(err, Some(DeError::InvalidUuid(Section::EntityOverride)));

    let component_override = vec![ComponentOverrideEntry::ComponentType(text(SCALE))];
    let override_entity = vec![
        EntityOverrideEntry::EntityId(text(ENTITY_A)),
        EntityOverrideEntry::ComponentOverrides(vec![component_override]),
    ];
    let reference = vec![
        PrefabRefEntry::PrefabId(text(OTHER_PREFAB)),
        PrefabRefEntry::EntityOverrides(vec![override_entity]),
    ];
    let d = doc(vec![PrefabEntry::Id(text(PREFAB)), PrefabEntry::Objects(vec![PrefabObject::PrefabRef(reference)])]);
    let (_, err) = deserialize_events(d);
    assert_eq!(err, Some(DeError::MissingField(Section::ComponentOverride)));
}

#[test]
fn identifiers_are_read_and_written_as_uuid_text() {
    let entity = "936da01f-9abd-4d9d-80c7-02af85c822a8".to_string();
    let d = doc(vec![
        PrefabEntry::Id(text(PREFAB)),
        PrefabEntry::Objects(vec![PrefabObject::Entity(vec![EntityEntry::Id(entity), EntityEntry::Components(vec![])])]),
    ]);
    let (events, err) = deserialize_events(d);
    assert_eq!(err, None);
    let mut bytes = [0u8; 16];
    bytes.copy_from_slice(&[0x93, 0x6d, 0xa0, 0x1f, 0x9a, 0xbd, 0x4d, 0x9d, 0x80, 0xc7, 0x02, 0xaf, 0x85, 0xc8, 0x22, 0xa8]);
    assert_eq!(events[0], StorageEvent::BeginEntityObject { prefab: PREFAB, entity: bytes });

    let (_, built) = read_prefab(sample_doc(), context());
    let written = serialize(&built.prefab, PREFAB);
    assert_eq!(written.entries[0], PrefabEntry::Id("01010101-0101-0101-0101-010101010101".to_string()));
}

type Parsed = Option<[u8; 16]>;

#[test]
fn already_parsed_identifiers_read_the_same() {
    let d: PrefabDoc<Data, Parsed> = PrefabDoc {
        entries: vec![
            PrefabEntry::Id(Some(PREFAB)),
            PrefabEntry::Objects(vec![PrefabObject::Entity(vec![
                EntityEntry::Id(Some(ENTITY_B)),
                EntityEntry::Components(vec![vec![ComponentEntry::Type(Some(POSITION)), ComponentEntry::Data("b position")]]),
            ])]),
        ],
    };
    let (events, err) = deserialize_events(d);
    assert_eq!(err, None);
    assert_eq!(events, expected_events()[7..].to_vec());
}

#[test]
fn unreadable_parsed_identifier_is_an_error() {
    let d: PrefabDoc<Data, Parsed> = PrefabDoc {
        entries: vec![
            PrefabEntry::Id(Some(PREFAB)),
            PrefabEntry::Objects(vec![PrefabObject::PrefabRef(vec![PrefabRefEntry::PrefabId(None)])]),
        ],
    };
    let (events, err) = deserialize_events(d);
    assert!(events.is_empty());
    assert_eq!(err, Some(DeError::InvalidUuid(Section::PrefabRef)));
}

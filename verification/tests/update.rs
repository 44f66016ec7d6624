use shader_graph::error::UpdateError;
use shader_graph::input::{Input, InputType, InputValues};
use shader_graph::meta::{IsfInfo, ShaderDef};
use shader_graph::node::{
    find_expression_text, find_model_path, FileTime, InputParam, NodeKind, NodeShader, NodeType,
    ResourceId,
};
use shader_graph::update::{
    GlExpressionUpdater, IsfUpdater, NodeUpdate, ObjLoader, UpdateAction, UpdateEvent,
};
use shader_graph::value::{FloatBits, RangedData, TextStyle, UiValue};

fn time(secs: u64) -> FileTime {
    FileTime { secs, nanos: 0 }
}

fn done() -> UpdateAction {
    UpdateAction::Done { result: Ok(()), released: None }
}

fn def(input: &str) -> ShaderDef {
    ShaderDef {
        description: None,
        inputs: vec![Input {
            name: input.to_string(),
            ty: InputType::Float(InputValues {
                default: Some(FloatBits { bits: 0x3F00_0000 }),
                min: None,
                max: None,
                identity: None,
            }),
        }],
    }
}

fn glow() -> IsfInfo {
    IsfInfo { name: "glow".to_string(), path: "shaders/glow.fs".to_string(), def: def("brightness") }
}

fn text(value: &str) -> InputParam {
    InputParam {
        name: "source".to_string(),
        value: UiValue::Text(
            RangedData { value: value.to_string(), min: None, max: None },
            TextStyle::Multiline,
        ),
    }
}

fn path(value: Option<&str>) -> InputParam {
    InputParam { name: "model".to_string(), value: UiValue::Path(value.map(|p| p.to_string())) }
}

fn number(name: &str) -> InputParam {
    InputParam { name: name.to_string(), value: UiValue::Long(RangedData::new(1)) }
}

struct IsfNode {
    updater: NodeUpdate,
    template: NodeType,
    shader: NodeShader,
}

fn isf_node(modified: FileTime, resource: Option<ResourceId>) -> IsfNode {
    IsfNode {
        updater: NodeUpdate::Isf(IsfUpdater { modified }),
        template: NodeType::Isf { info: glow() },
        shader: NodeShader::Isf(resource),
    }
}

fn step(node: &mut IsfNode, inputs: &Vec<InputParam>, event: UpdateEvent) -> UpdateAction {
    node.updater.update(&mut node.template, inputs, &mut node.shader, event)
}

#[test]
fn every_kind_has_its_controller() {
    let isf = NodeUpdate::new(&NodeType::Isf { info: glow() }).unwrap();
    assert!(matches!(isf, NodeUpdate::Isf(_)));
    assert_eq!(
        NodeUpdate::new(&NodeType::ObjRender),
        Some(NodeUpdate::Obj(ObjLoader { modified: None, loaded_path: None }))
    );
    assert_eq!(
        NodeUpdate::new(&NodeType::Expression { source: None }),
        Some(NodeUpdate::Expression(GlExpressionUpdater { frag_source: None }))
    );
}

#[test]
fn controller_of_a_shader_file_starts_at_the_given_time() {
    assert_eq!(
        NodeUpdate::with_time(&NodeType::Isf { info: glow() }, time(77)),
        NodeUpdate::Isf(IsfUpdater { modified: time(77) })
    );
    assert_eq!(NodeUpdate::with_time(&NodeType::ObjRender, time(77)), NodeUpdate::Obj(ObjLoader::new()));
    assert_eq!(
        NodeUpdate::with_time(&NodeType::Expression { source: Some("x".to_string()) }, time(77)),
        NodeUpdate::Expression(GlExpressionUpdater::new())
    );
}

#[test]
fn controller_of_a_new_shader_node_holds_the_clock() {
    let before = std::time::SystemTime::now()
        .duration_since(std::time::UNIX_EPOCH)
        .unwrap()
        .as_secs();
    let updater = NodeUpdate::new(&NodeType::Isf { info: glow() }).unwrap();
    match updater {
        NodeUpdate::Isf(isf) => {
            assert!(isf.modified.secs >= before);
            assert!(isf.modified.secs <= before + 60);
            assert!(isf.modified.nanos < 1_000_000_000);
        }
        _ => panic!("a shader file has a shader-file controller"),
    }
}

#[test]
fn kinds_and_slots() {
    assert_eq!(NodeType::Isf { info: glow() }.kind(), NodeKind::Isf);
    assert_eq!(NodeType::ObjRender.kind(), NodeKind::ObjRender);
    assert_eq!(NodeType::Expression { source: None }.kind(), NodeKind::Expression);
    let slot = NodeShader::new(&NodeType::ObjRender, Some(ResourceId { id: 4 }));
    assert_eq!(slot, NodeShader::Obj(Some(ResourceId { id: 4 })));
    assert_eq!(slot.kind(), NodeKind::ObjRender);
    assert_eq!(slot.resource(), Some(ResourceId { id: 4 }));
    assert_eq!(NodeShader::new(&NodeType::Isf { info: glow() }, None), NodeShader::Isf(None));
    assert_eq!(
        NodeShader::new(&NodeType::Expression { source: None }, None).kind(),
        NodeKind::Expression
    );
}

#[test]
fn first_path_parameter_decides_the_model() {
    assert_eq!(find_model_path(&vec![]), None);
    assert_eq!(find_model_path(&vec![number("a"), text("x")]), None);
    assert_eq!(
        find_model_path(&vec![number("a"), path(Some("cube.obj")), path(Some("ball.obj"))]),
        Some("cube.obj".to_string())
    );
    assert_eq!(find_model_path(&vec![path(None), path(Some("ball.obj"))]), None);
}

#[test]
fn first_text_parameter_decides_the_expression() {
    assert_eq!(find_expression_text(&vec![]), None);
    assert_eq!(find_expression_text(&vec![number("a"), path(Some("p"))]), None);
    assert_eq!(
        find_expression_text(&vec![number("a"), text("void main(){}"), text("other")]),
        Some("void main(){}".to_string())
    );
}

#[test]
fn isf_frame_asks_for_the_time_of_its_file() {
    let mut node = isf_node(time(10), None);
    let action = step(&mut node, &vec![], UpdateEvent::Frame);
    assert_eq!(action, UpdateAction::Stat { path: "shaders/glow.fs".to_string() });
    assert_eq!(node.updater, NodeUpdate::Isf(IsfUpdater { modified: time(10) }));
}

#[test]
fn isf_unchanged_file_is_not_built_again() {
    let mut node = isf_node(time(10), Some(ResourceId { id: 1 }));
    for _ in 0..2 {
        assert_eq!(
            step(&mut node, &vec![], UpdateEvent::Frame),
            UpdateAction::Stat { path: "shaders/glow.fs".to_string() }
        );
        let action = step(
            &mut node,
            &vec![],
            UpdateEvent::Stat { path: "shaders/glow.fs".to_string(), modified: Ok(time(10)) },
        );
        assert_eq!(action, done());
        assert_eq!(node.updater, NodeUpdate::Isf(IsfUpdater { modified: time(10) }));
        assert_eq!(node.template, NodeType::Isf { info: glow() });
        assert_eq!(node.shader, NodeShader::Isf(Some(ResourceId { id: 1 })));
    }
}

#[test]
fn isf_changed_file_is_built() {
    let mut node = isf_node(time(10), Some(ResourceId { id: 1 }));
    let action = step(
        &mut node,
        &vec![],
        UpdateEvent::Stat { path: "shaders/glow.fs".to_string(), modified: Ok(time(11)) },
    );
    assert_eq!(
        action,
        UpdateAction::BuildIsf { path: "shaders/glow.fs".to_string(), modified: time(11) }
    );
    assert_eq!(node.updater, NodeUpdate::Isf(IsfUpdater { modified: time(10) }));
}

#[test]
fn isf_older_file_counts_as_changed() {
    let mut node = isf_node(time(10), None);
    let action = step(
        &mut node,
        &vec![],
        UpdateEvent::Stat { path: "shaders/glow.fs".to_string(), modified: Ok(FileTime { secs: 10, nanos: 1 }) },
    );
    assert!(matches!(action, UpdateAction::BuildIsf { .. }));
    let action = step(
        &mut node,
        &vec![],
        UpdateEvent::Stat { path: "shaders/glow.fs".to_string(), modified: Ok(time(3)) },
    );
    assert_eq!(
        action,
        UpdateAction::BuildIsf { path: "shaders/glow.fs".to_string(), modified: time(3) }
    );
}

#[test]
fn isf_invalid_content_keeps_shader_and_is_retried() {
    let mut node = isf_node(time(10), Some(ResourceId { id: 1 }));
    for _ in 0..2 {
        let action = step(
            &mut node,
            &vec![],
            UpdateEvent::Stat { path: "shaders/glow.fs".to_string(), modified: Ok(time(11)) },
        );
        assert!(matches!(action, UpdateAction::BuildIsf { .. }));
        let action = step(
            &mut node,
            &vec![],
            UpdateEvent::IsfBuilt {
                modified: time(11),
                result: Err(UpdateError::ParseError("no top comment".to_string())),
            },
        );
        assert_eq!(
            action,
            UpdateAction::Done {
                result: Err(UpdateError::ParseError("no top comment".to_string())),
                released: None
            }
        );
        assert_eq!(node.updater, NodeUpdate::Isf(IsfUpdater { modified: time(10) }));
        assert_eq!(node.template, NodeType::Isf { info: glow() });
        assert_eq!(node.shader, NodeShader::Isf(Some(ResourceId { id: 1 })));
    }
}

#[test]
fn isf_valid_content_replaces_shader_once() {
    let mut node = isf_node(time(10), Some(ResourceId { id: 1 }));
    step(
        &mut node,
        &vec![],
        UpdateEvent::IsfBuilt {
            modified: time(11),
            result: Err(UpdateError::CompileError("broken".to_string())),
        },
    );
    let action = step(
        &mut node,
        &vec![],
        UpdateEvent::IsfBuilt { modified: time(12), result: Ok((def("gain"), ResourceId { id: 2 })) },
    );
    assert_eq!(
        action,
        UpdateAction::Done { result: Ok(()), released: Some(ResourceId { id: 1 }) }
    );
    assert_eq!(node.updater, NodeUpdate::Isf(IsfUpdater { modified: time(12) }));
    assert_eq!(
        node.template,
        NodeType::Isf {
            info: IsfInfo {
                name: "glow".to_string(),
                path: "shaders/glow.fs".to_string(),
                def: def("gain")
            }
        }
    );
    assert_eq!(node.shader, NodeShader::Isf(Some(ResourceId { id: 2 })));
    let action = step(
        &mut node,
        &vec![],
        UpdateEvent::Stat { path: "shaders/glow.fs".to_string(), modified: Ok(time(12)) },
    );
    assert_eq!(action, done());
}

#[test]
fn isf_missing_file_is_an_io_error() {
    let mut node = isf_node(time(10), Some(ResourceId { id: 1 }));
    let action = step(
        &mut node,
        &vec![],
        UpdateEvent::Stat { path: "shaders/glow.fs".to_string(), modified: Err("not found".to_string()) },
    );
    assert_eq!(
        action,
        UpdateAction::Done { result: Err(UpdateError::IoError("not found".to_string())), released: None }
    );
    assert_eq!(node.shader, NodeShader::Isf(Some(ResourceId { id: 1 })));
}

#[test]
fn rebuilt_resource_of_the_same_name_is_not_released() {
    let mut node = isf_node(time(10), Some(ResourceId { id: 1 }));
    let action = step(
        &mut node,
        &vec![],
        UpdateEvent::IsfBuilt { modified: time(12), result: Ok((def("gain"), ResourceId { id: 1 })) },
    );
    assert_eq!(action, done());
    assert_eq!(node.shader, NodeShader::Isf(Some(ResourceId { id: 1 })));
}

#[test]
fn model_without_path_does_nothing() {
    let mut loader = ObjLoader::new();
    let mut slot = None;
    for inputs in [vec![], vec![number("a")], vec![path(None)]] {
        let action = loader.load_if_changed(&inputs, &mut slot, UpdateEvent::Frame);
        assert_eq!(action, done());
        assert_eq!(loader, ObjLoader::new());
        assert_eq!(slot, None);
    }
}

#[test]
fn model_path_is_loaded_once() {
    let inputs = vec![path(Some("cube.obj"))];
    let mut loader = ObjLoader::new();
    let mut slot = None;
    assert_eq!(
        loader.load_if_changed(&inputs, &mut slot, UpdateEvent::Frame),
        UpdateAction::Stat { path: "cube.obj".to_string() }
    );
    assert_eq!(
        loader.load_if_changed(
            &inputs,
            &mut slot,
            UpdateEvent::Stat { path: "cube.obj".to_string(), modified: Ok(time(5)) }
        ),
        UpdateAction::LoadModel { path: "cube.obj".to_string(), modified: time(5) }
    );
    assert_eq!(
        loader.load_if_changed(
            &inputs,
            &mut slot,
            UpdateEvent::ModelLoaded {
                path: "cube.obj".to_string(),
                modified: time(5),
                result: Ok(ResourceId { id: 9 })
            }
        ),
        done()
    );
    assert_eq!(
        loader,
        ObjLoader { modified: Some(time(5)), loaded_path: Some("cube.obj".to_string()) }
    );
    assert_eq!(slot, Some(ResourceId { id: 9 }));
    assert_eq!(
        loader.load_if_changed(
            &inputs,
            &mut slot,
            UpdateEvent::Stat { path: "cube.obj".to_string(), modified: Ok(time(5)) }
        ),
        done()
    );
}

#[test]
fn model_is_loaded_again_when_path_or_time_change() {
    let mut loader = ObjLoader { modified: Some(time(5)), loaded_path: Some("cube.obj".to_string()) };
    let mut slot = Some(ResourceId { id: 9 });
    assert_eq!(
        loader.load_if_changed(
            &vec![],
            &mut slot,
            UpdateEvent::Stat { path: "cube.obj".to_string(), modified: Ok(time(6)) }
        ),
        UpdateAction::LoadModel { path: "cube.obj".to_string(), modified: time(6) }
    );
    assert_eq!(
        loader.load_if_changed(
            &vec![],
            &mut slot,
            UpdateEvent::Stat { path: "ball.obj".to_string(), modified: Ok(time(5)) }
        ),
        UpdateAction::LoadModel { path: "ball.obj".to_string(), modified: time(5) }
    );
    assert_eq!(
        loader.load_if_changed(
            &vec![],
            &mut slot,
            UpdateEvent::ModelLoaded {
                path: "ball.obj".to_string(),
                modified: time(5),
                result: Ok(ResourceId { id: 10 })
            }
        ),
        UpdateAction::Done { result: Ok(()), released: Some(ResourceId { id: 9 }) }
    );
    assert_eq!(loader.loaded_path, Some("ball.obj".to_string()));
    assert_eq!(slot, Some(ResourceId { id: 10 }));
}

#[test]
fn model_that_fails_to_load_keeps_the_old_one() {
    let mut loader = ObjLoader { modified: Some(time(5)), loaded_path: Some("cube.obj".to_string()) };
    let mut slot = Some(ResourceId { id: 9 });
    let action = loader.load_if_changed(
        &vec![],
        &mut slot,
        UpdateEvent::ModelLoaded {
            path: "ball.obj".to_string(),
            modified: time(8),
            result: Err(UpdateError::IoError("truncated".to_string())),
        },
    );
    assert_eq!(
        action,
        UpdateAction::Done { result: Err(UpdateError::IoError("truncated".to_string())), released: None }
    );
    assert_eq!(
        loader,
        ObjLoader { modified: Some(time(5)), loaded_path: Some("cube.obj".to_string()) }
    );
    assert_eq!(slot, Some(ResourceId { id: 9 }));
}

#[test]
fn expression_compiles_then_keeps_shader_on_malformed_text() {
    let mut updater = GlExpressionUpdater::new();
    let mut slot = None;
    let good = vec![text("void main(){}")];
    assert_eq!(
        updater.update(&good, &mut slot, UpdateEvent::Frame),
        UpdateAction::BuildExpression { source: "void main(){}".to_string() }
    );
    assert_eq!(
        updater.update(
            &good,
            &mut slot,
            UpdateEvent::ExpressionBuilt {
                source: "void main(){}".to_string(),
                result: Ok(ResourceId { id: 3 })
            }
        ),
        done()
    );
    assert_eq!(updater.frag_source, Some("void main(){}".to_string()));
    assert_eq!(slot, Some(ResourceId { id: 3 }));
    assert_eq!(updater.update(&good, &mut slot, UpdateEvent::Frame), done());

    let bad = vec![text("void main(")];
    for _ in 0..2 {
        assert_eq!(
            updater.update(&bad, &mut slot, UpdateEvent::Frame),
            UpdateAction::BuildExpression { source: "void main(".to_string() }
        );
        assert_eq!(
            updater.update(
                &bad,
                &mut slot,
                UpdateEvent::ExpressionBuilt {
                    source: "void main(".to_string(),
                    result: Err(UpdateError::CompileError("unexpected end".to_string()))
                }
            ),
            UpdateAction::Done {
                result: Err(UpdateError::CompileError("unexpected end".to_string())),
                released: None
            }
        );
        assert_eq!(updater.frag_source, Some("void main(){}".to_string()));
        assert_eq!(slot, Some(ResourceId { id: 3 }));
    }
}

#[test]
fn expression_without_text_does_nothing() {
    let mut updater = GlExpressionUpdater::new();
    let mut slot = None;
    assert_eq!(updater.update(&vec![number("n")], &mut slot, UpdateEvent::Frame), done());
    assert_eq!(updater, GlExpressionUpdater::new());
    assert_eq!(slot, None);
}

#[test]
fn parts_that_do_not_belong_together_are_left_alone() {
    let mut updater = NodeUpdate::Isf(IsfUpdater { modified: time(1) });
    let mut template = NodeType::Expression { source: None };
    let mut shader = NodeShader::Isf(Some(ResourceId { id: 1 }));
    let action = updater.update(
        &mut template,
        &vec![text("void main(){}")],
        &mut shader,
        UpdateEvent::IsfBuilt { modified: time(2), result: Ok((def("x"), ResourceId { id: 2 })) },
    );
    assert_eq!(action, done());
    assert_eq!(updater, NodeUpdate::Isf(IsfUpdater { modified: time(1) }));
    assert_eq!(shader, NodeShader::Isf(Some(ResourceId { id: 1 })));
}

#[test]
fn reports_of_foreign_work_change_nothing() {
    let mut node = isf_node(time(10), Some(ResourceId { id: 1 }));
    let action = step(
        &mut node,
        &vec![],
        UpdateEvent::ExpressionBuilt { source: "x".to_string(), result: Ok(ResourceId { id: 5 }) },
    );
    assert_eq!(action, done());
    assert_eq!(node.shader, NodeShader::Isf(Some(ResourceId { id: 1 })));
    let mut updater = GlExpressionUpdater::new();
    let mut slot = None;
    let action = updater.update(
        &vec![text("a")],
        &mut slot,
        UpdateEvent::Stat { path: "a".to_string(), modified: Ok(time(1)) },
    );
    assert_eq!(action, done());
    assert_eq!(slot, None);
}

#[test]
fn model_controller_ignores_the_kind_of_node() {
    let mut updater = NodeUpdate::Obj(ObjLoader::new());
    let mut template = NodeType::Isf { info: glow() };
    let mut shader = NodeShader::Obj(None);
    let action = updater.update(
        &mut template,
        &vec![path(Some("cube.obj"))],
        &mut shader,
        UpdateEvent::Frame,
    );
    assert_eq!(action, UpdateAction::Stat { path: "cube.obj".to_string() });
}

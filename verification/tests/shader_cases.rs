use lit_scene::device::{DeviceCommand, Matrix, ModelTransform, UniformValue};
use lit_scene::shader::{
    written_log, BuildReply, BuildRequest, CompileError, ProgramBuild, Shader, Stage,
};
use lit_scene::vector::Vec3;

/// A stage that compiled, with what the compiler wrote.
fn compiled(object: u32, log: &str) -> BuildReply {
    BuildReply::StageCompiled { object, compiled: true, log: log.as_bytes().to_vec() }
}

/// A stage that did not compile, with what the compiler wrote.
fn refused(object: u32, log: &str) -> BuildReply {
    BuildReply::StageCompiled { object, compiled: false, log: log.as_bytes().to_vec() }
}

/// A program that linked, with what the linker wrote.
fn linked(program: u32, log: &str) -> BuildReply {
    BuildReply::ProgramLinked { program, linked: true, log: log.as_bytes().to_vec() }
}

/// A program that did not link, with what the linker wrote.
fn unlinked(program: u32, log: &str) -> BuildReply {
    BuildReply::ProgramLinked { program, linked: false, log: log.as_bytes().to_vec() }
}

fn shader(program: u32) -> Shader {
    let (build, _) = ProgramBuild::begin();
    let (build, _) = build.advance(compiled(1, ""));
    let (build, _) = build.advance(compiled(2, ""));
    let (build, _) = build.advance(linked(program, ""));
    match build.outcome() {
        Some(Ok(shader)) => shader,
        other => panic!("no program: {:?}", other),
    }
}

/// Stage objects that were reported and not deleted, after a run.
fn dangling(replies: &[BuildReply], requests: &[BuildRequest]) -> Vec<u32> {
    let mut live: Vec<u32> = Vec::new();
    for reply in replies {
        if let BuildReply::StageCompiled { object, .. } = reply {
            live.push(*object);
        }
    }
    for request in requests {
        if let BuildRequest::DeleteStage { object } = request {
            let at = live.iter().position(|o| o == object).expect("deleted what was not there");
            live.remove(at);
        }
    }
    live
}

#[test]
fn build_begins_with_the_vertex_stage() {
    let (build, request) = ProgramBuild::begin();
    assert_eq!(build, ProgramBuild::CompilingVertex);
    assert_eq!(request, BuildRequest::CompileStage { stage: Stage::Vertex });
    assert_eq!(build.outcome(), None);
}

#[test]
fn build_of_a_good_program() {
    let (build, _) = ProgramBuild::begin();
    let (build, requests) = build.advance(compiled(11, ""));
    assert_eq!(build, ProgramBuild::CompilingFragment { vertex: 11 });
    assert_eq!(requests, vec![BuildRequest::CompileStage { stage: Stage::Fragment }]);
    let (build, requests) = build.advance(compiled(12, ""));
    assert_eq!(build, ProgramBuild::Linking { vertex: 11, fragment: 12 });
    assert_eq!(requests, vec![BuildRequest::LinkProgram { vertex: 11, fragment: 12 }]);
    let (build, requests) = build.advance(linked(13, ""));
    assert_eq!(
        requests,
        vec![
            BuildRequest::DeleteStage { object: 11 },
            BuildRequest::DeleteStage { object: 12 },
        ]
    );
    match build.outcome() {
        Some(Ok(shader)) => assert_eq!(shader.handle(), 13),
        other => panic!("no program: {:?}", other),
    }
}

#[test]
fn vertex_stage_that_does_not_compile() {
    let (build, _) = ProgramBuild::begin();
    let log = "0:1(1): error: syntax error, unexpected NEW_IDENTIFIER";
    let replies = [refused(5, log)];
    let (build, requests) = build.advance(refused(5, log));
    assert_eq!(requests, vec![BuildRequest::DeleteStage { object: 5 }]);
    assert!(dangling(&replies, &requests).is_empty());
    match build.outcome() {
        Some(Err(error)) => {
            assert_eq!(
                error,
                CompileError::Stage { stage: Stage::Vertex, log: log.as_bytes().to_vec() }
            );
            assert!(!error.log().is_empty());
            assert_eq!(error.log().as_slice(), log.as_bytes());
        }
        other => panic!("no error: {:?}", other),
    }
}

#[test]
fn fragment_stage_that_does_not_compile() {
    let (build, _) = ProgramBuild::begin();
    let replies = [compiled(5, ""), refused(6, "bad fragment")];
    let (build, mut requests) = build.advance(compiled(5, ""));
    let (build, more) = build.advance(refused(6, "bad fragment"));
    assert_eq!(
        more,
        vec![BuildRequest::DeleteStage { object: 5 }, BuildRequest::DeleteStage { object: 6 }]
    );
    requests.extend(more);
    assert!(dangling(&replies, &requests).is_empty());
    assert_eq!(
        build.outcome(),
        Some(Err(CompileError::Stage { stage: Stage::Fragment, log: b"bad fragment".to_vec() }))
    );
}

#[test]
fn program_that_does_not_link() {
    let (build, _) = ProgramBuild::begin();
    let replies = [compiled(5, ""), compiled(6, ""), unlinked(7, "error: linking failed")];
    let (build, mut requests) = build.advance(compiled(5, ""));
    let (build, more) = build.advance(compiled(6, ""));
    requests.extend(more);
    let (build, more) = build.advance(unlinked(7, "error: linking failed"));
    assert_eq!(
        more,
        vec![
            BuildRequest::DeleteStage { object: 5 },
            BuildRequest::DeleteStage { object: 6 },
            BuildRequest::DeleteProgram { program: 7 },
        ]
    );
    requests.extend(more);
    assert!(dangling(&replies, &requests).is_empty());
    match build.outcome() {
        Some(Err(error)) => {
            assert_eq!(error, CompileError::Link { log: b"error: linking failed".to_vec() });
            assert_eq!(error.log().as_slice(), b"error: linking failed");
        }
        other => panic!("no error: {:?}", other),
    }
}

#[test]
fn a_warning_does_not_fail_a_stage_that_compiled() {
    let (build, _) = ProgramBuild::begin();
    let (build, requests) = build.advance(compiled(5, "0:3(7): warning: unused variable"));
    assert_eq!(build, ProgramBuild::CompilingFragment { vertex: 5 });
    assert_eq!(requests, vec![BuildRequest::CompileStage { stage: Stage::Fragment }]);
    let (build, _) = build.advance(compiled(6, "warning"));
    assert_eq!(build, ProgramBuild::Linking { vertex: 5, fragment: 6 });
    let (build, _) = build.advance(linked(7, "warning: something"));
    match build.outcome() {
        Some(Ok(shader)) => assert_eq!(shader.handle(), 7),
        other => panic!("no program: {:?}", other),
    }
}

#[test]
fn a_failure_without_a_log_is_a_failure() {
    let (build, _) = ProgramBuild::begin();
    let (build, requests) = build.advance(refused(5, ""));
    assert_eq!(requests, vec![BuildRequest::DeleteStage { object: 5 }]);
    assert_eq!(
        build,
        ProgramBuild::Failed { error: CompileError::Stage { stage: Stage::Vertex, log: vec![] } }
    );
    let (build, _) = ProgramBuild::begin();
    let (build, _) = build.advance(compiled(1, ""));
    let (build, _) = build.advance(compiled(2, ""));
    let (build, requests) = build.advance(unlinked(3, ""));
    assert_eq!(
        requests,
        vec![
            BuildRequest::DeleteStage { object: 1 },
            BuildRequest::DeleteStage { object: 2 },
            BuildRequest::DeleteProgram { program: 3 },
        ]
    );
    assert_eq!(build.outcome(), Some(Err(CompileError::Link { log: vec![] })));
}

#[test]
fn log_bytes_are_kept_as_they_are() {
    let (build, _) = ProgramBuild::begin();
    let raw = vec![0xff, 0x00, 0x80, b'\n'];
    let (build, _) = build.advance(BuildReply::StageCompiled {
        object: 1,
        compiled: false,
        log: raw.clone(),
    });
    match build.outcome() {
        Some(Err(error)) => assert_eq!(error.log(), &raw),
        other => panic!("no error: {:?}", other),
    }
}

#[test]
fn a_reply_that_was_not_waited_for_is_cleaned_up() {
    let (build, _) = ProgramBuild::begin();
    let (build, requests) = build.advance(linked(9, ""));
    assert_eq!(build, ProgramBuild::CompilingVertex);
    assert_eq!(requests, vec![BuildRequest::DeleteProgram { program: 9 }]);
    let (build, _) = build.advance(compiled(1, ""));
    let (build, _) = build.advance(compiled(2, ""));
    let (build, requests) = build.advance(compiled(3, "anything"));
    assert_eq!(build, ProgramBuild::Linking { vertex: 1, fragment: 2 });
    assert_eq!(requests, vec![BuildRequest::DeleteStage { object: 3 }]);
}

#[test]
fn a_finished_build_stays_finished() {
    let (build, _) = ProgramBuild::begin();
    let (build, _) = build.advance(refused(1, "oops"));
    let (build, requests) = build.advance(compiled(2, ""));
    assert_eq!(requests, vec![BuildRequest::DeleteStage { object: 2 }]);
    let (build, requests) = build.advance(linked(3, ""));
    assert_eq!(requests, vec![BuildRequest::DeleteProgram { program: 3 }]);
    assert_eq!(
        build,
        ProgramBuild::Failed {
            error: CompileError::Stage { stage: Stage::Vertex, log: b"oops".to_vec() }
        }
    );
}

#[test]
fn no_run_leaves_a_stage_behind() {
    let words = [true, false];
    for a in words {
        for b in words {
            for c in words {
                let stage = |object: u32, ok: bool| BuildReply::StageCompiled {
                    object,
                    compiled: ok,
                    log: b"x".to_vec(),
                };
                let program = |program: u32, ok: bool| BuildReply::ProgramLinked {
                    program,
                    linked: ok,
                    log: Vec::new(),
                };
                let make = || {
                    vec![
                        stage(1, a),
                        program(40, c),
                        stage(2, b),
                        stage(3, a),
                        program(41, c),
                        stage(4, b),
                        program(42, a),
                    ]
                };
                let replies = make();
                let (mut build, _) = ProgramBuild::begin();
                let mut requests = Vec::new();
                for reply in make() {
                    let (next, more) = build.advance(reply);
                    build = next;
                    requests.extend(more);
                }
                assert!(build.outcome().is_some());
                assert!(dangling(&replies, &requests).is_empty());
            }
        }
    }
}

#[test]
fn written_log_is_the_written_part() {
    assert_eq!(written_log(b"error\0\0\0".to_vec(), 5), b"error".to_vec());
    assert_eq!(written_log(vec![0; 511], 0), Vec::<u8>::new());
    assert_eq!(written_log(vec![7; 511], 511), vec![7; 511]);
}

#[test]
fn written_log_past_either_end() {
    assert_eq!(written_log(b"abc".to_vec(), -1), Vec::<u8>::new());
    assert_eq!(written_log(b"abc".to_vec(), i32::MIN), Vec::<u8>::new());
    assert_eq!(written_log(b"abc".to_vec(), 4), b"abc".to_vec());
    assert_eq!(written_log(b"abc".to_vec(), i32::MAX), b"abc".to_vec());
    assert_eq!(written_log(Vec::new(), 3), Vec::<u8>::new());
}

#[test]
fn use_program_names_the_program() {
    assert_eq!(shader(21).use_program(), DeviceCommand::UseProgram { program: 21 });
}

#[test]
fn set_bool_is_one_or_zero() {
    let s = shader(3);
    assert_eq!(
        s.set_bool("flag", true),
        DeviceCommand::SetUniform {
            program: 3,
            name: String::from("flag"),
            value: UniformValue::Int(1)
        }
    );
    assert_eq!(
        s.set_bool("flag", false),
        DeviceCommand::SetUniform {
            program: 3,
            name: String::from("flag"),
            value: UniformValue::Int(0)
        }
    );
}

#[test]
fn set_int_and_set_float_keep_the_value() {
    let s = shader(3);
    assert_eq!(
        s.set_int("count", -17),
        DeviceCommand::SetUniform {
            program: 3,
            name: String::from("count"),
            value: UniformValue::Int(-17)
        }
    );
    assert_eq!(
        s.set_float("material.shininess", 32_000_000),
        DeviceCommand::SetUniform {
            program: 3,
            name: String::from("material.shininess"),
            value: UniformValue::Float(32_000_000)
        }
    );
}

#[test]
fn set_vec3_and_set_matrix4_keep_the_value() {
    let s = shader(8);
    let v = Vec3::new(1, 2, 3);
    assert_eq!(
        s.set_vec3("viewPos", v),
        DeviceCommand::SetUniform {
            program: 8,
            name: String::from("viewPos"),
            value: UniformValue::Vector(v)
        }
    );
    let place = ModelTransform { position: v, axis: v, angle: 20_000_000, scale: 1_000_000 };
    assert_eq!(
        s.set_matrix4("model", Matrix::Model(place)),
        DeviceCommand::SetUniform {
            program: 8,
            name: String::from("model"),
            value: UniformValue::Matrix(Matrix::Model(place))
        }
    );
}

#[test]
fn set_texture_binds_and_points_the_sampler() {
    let s = shader(8);
    let (bind, sampler) = s.set_texture("material.specular", 77, 1);
    assert_eq!(bind, DeviceCommand::BindTexture { unit: 1, texture: 77 });
    assert_eq!(
        sampler,
        DeviceCommand::SetUniform {
            program: 8,
            name: String::from("material.specular"),
            value: UniformValue::Int(1)
        }
    );
}

#[test]
fn a_name_may_be_any_text() {
    let s = shader(1);
    assert_eq!(
        s.set_int("", 0),
        DeviceCommand::SetUniform { program: 1, name: String::new(), value: UniformValue::Int(0) }
    );
    assert_eq!(
        s.set_int("no such uniform \u{e9}", 0),
        DeviceCommand::SetUniform {
            program: 1,
            name: String::from("no such uniform \u{e9}"),
            value: UniformValue::Int(0)
        }
    );
}

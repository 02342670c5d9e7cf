use cim_domain_nix::domain_error::NixDomainError;
use cim_domain_nix::handlers::{
    acknowledgment_for, failed_to, template_for, BuildPackage, BuildPackageHandler, CommandRoute,
    CommandStatus, CreateFlake, CreateFlakeHandler, ExpressionCommandHandler, FlakeCommandHandler, FlakeStep,
    FlakeTemplate, GarbageCollectionHandler, NixCommandHandler, NixCommandKind, NixCommandWrapper,
    PackageCommandHandler, UpdateFlake, UpdateFlakeHandler,
};
use std::sync::Arc;

fn runs(steps: &[FlakeStep]) -> Vec<String> {
    steps
        .iter()
        .map(|s| match s {
            FlakeStep::CreateDirectory => "mkdir".to_string(),
            FlakeStep::WriteFlakeNix => "write flake.nix".to_string(),
            FlakeStep::WriteTemplateFiles => "write files".to_string(),
            FlakeStep::Run(i) => format!("{} {}", i.program, i.args.join(" ")),
        })
        .collect()
}

#[test]
fn templates_by_name() {
    assert_eq!(template_for(None), FlakeTemplate::DevShell);
    assert_eq!(template_for(Some("rust")), FlakeTemplate::Rust);
    assert_eq!(template_for(Some("python")), FlakeTemplate::Python);
    assert_eq!(template_for(Some("nodejs")), FlakeTemplate::NodeJs);
    assert_eq!(template_for(Some("go")), FlakeTemplate::Go);
    assert_eq!(template_for(Some("cpp")), FlakeTemplate::Cpp);
    assert_eq!(template_for(Some("haskell")), FlakeTemplate::Haskell);
    assert_eq!(template_for(Some("polyglot")), FlakeTemplate::Polyglot);
    assert_eq!(template_for(Some("nixos")), FlakeTemplate::NixOSSystem);
    assert_eq!(template_for(Some("home-manager")), FlakeTemplate::HomeManager);
    assert_eq!(template_for(Some("devshell")), FlakeTemplate::DevShell);
    assert_eq!(template_for(Some("zig")), FlakeTemplate::Custom("zig".to_string()));
}

#[test]
fn flake_creation_steps() {
    let h = FlakeCommandHandler::new();
    assert_eq!(
        runs(&h.create_flake_steps(None, false)),
        vec!["mkdir", "write flake.nix", "write files", "git init", "git add flake.nix", "nix flake init"]
    );
    assert_eq!(
        runs(&h.create_flake_steps(Some("rust"), true)),
        vec!["mkdir", "write flake.nix", "write files", "git add flake.nix"]
    );
}

#[test]
fn flake_command_arguments() {
    let h = FlakeCommandHandler::default();
    assert_eq!(h.update_args(), vec!["flake", "update"]);
    assert_eq!(h.add_input_args("nixpkgs"), vec!["flake", "update", "nixpkgs"]);
    assert_eq!(h.check_args(), vec!["flake", "check"]);
    assert_eq!(h.develop_args(None), vec!["develop"]);
    assert_eq!(h.develop_args(Some("cargo test")), vec!["develop", "-c", "cargo test"]);
    assert_eq!(h.run_result(true, "ignored"), Ok(()));
    assert_eq!(h.run_result(false, "boom"), Err(NixDomainError::CommandError("boom".to_string())));
}

#[test]
fn package_build_arguments() {
    let h = PackageCommandHandler::new();
    assert_eq!(h.build_args("nixpkgs", "hello", None), vec!["build", "nixpkgs#hello"]);
    assert_eq!(
        h.build_args(".", "packages.x86_64-linux.default", Some("/tmp/out")),
        vec!["build", ".#packages.x86_64-linux.default", "--out-link=/tmp/out"]
    );
    assert_eq!(h.output_link(None), "./result");
    assert_eq!(h.output_link(Some("out")), "out");
    assert_eq!(h.run_result(false, "e"), Err(NixDomainError::BuildError("e".to_string())));
    assert_eq!(h.run_result(true, "e"), Ok(()));
}

#[test]
fn expression_evaluation() {
    let h = ExpressionCommandHandler::new();
    assert_eq!(h.eval_args("1 + 1"), vec!["eval", "--expr", "1 + 1"]);
    assert_eq!(h.evaluation_result(true, "  2\n", ""), Ok("2".to_string()));
    assert_eq!(
        h.evaluation_result(false, "", "error: bad"),
        Err(NixDomainError::ExecutionError("error: bad".to_string()))
    );
}

#[test]
fn garbage_collection_arguments() {
    let h = GarbageCollectionHandler::new();
    assert_eq!(h.gc_args(None), vec!["store", "gc"]);
    assert_eq!(h.gc_args(Some(30)), vec!["store", "gc", "--min-free", "30d"]);
    assert_eq!(h.run_result(false, "x"), Err(NixDomainError::CommandError("x".to_string())));
}

#[test]
fn commands_go_to_their_handlers() {
    let h = NixCommandHandler::new();
    assert_eq!(h.route_command(NixCommandKind::CreateFlake), Ok(CommandRoute::Flake));
    assert_eq!(h.route_command(NixCommandKind::DevelopFlake), Ok(CommandRoute::Flake));
    assert_eq!(h.route_command(NixCommandKind::BuildPackage), Ok(CommandRoute::Package));
    assert_eq!(h.route_command(NixCommandKind::EvaluateExpression), Ok(CommandRoute::Expression));
    assert_eq!(h.route_command(NixCommandKind::RunGarbageCollection), Ok(CommandRoute::GarbageCollection));
    assert_eq!(h.route_command(NixCommandKind::ActivateConfiguration), Ok(CommandRoute::RecordOnly));
    assert_eq!(
        h.route_command(NixCommandKind::Unknown),
        Err(NixDomainError::Other("Unknown command type".to_string()))
    );
}

#[test]
fn commands_built_by_the_main_handler() {
    let h = NixCommandHandler::default();
    let c = h.create_flake_command("my-flake", "A flake", &[], &[]);
    assert_eq!(c.path, "my-flake");
    assert_eq!(c.description, "A flake");
    assert!(c.template.is_none());
    let u = h.update_flake_command("/p", Some("ignored"), &[], &[]);
    assert_eq!(u.path, "/p");
    let b = h.build_package_command(".", "packages.x86_64-linux.hello", Some("out"));
    assert_eq!(b.flake_ref, ".");
    assert_eq!(b.attribute, vec!["packages", "x86_64-linux", "hello"]);
    assert_eq!(b.output_path, Some("out".to_string()));
}

#[test]
fn command_bus_handlers() {
    let nix = Arc::new(NixCommandHandler::new());
    let create = CreateFlakeHandler::new(nix.clone());
    let c = create.command_for(&CreateFlake {
        path: "dir".into(),
        description: "d".into(),
        template: Some("rust".into()),
    });
    assert_eq!(c.path, "dir");
    assert!(c.template.is_none());

    let update = UpdateFlakeHandler::new(nix.clone());
    assert_eq!(update.command_for(&UpdateFlake { path: "dir".into() }).path, "dir");

    let build = BuildPackageHandler::new(nix);
    let b = build.command_for(&BuildPackage {
        flake_ref: "nixpkgs".into(),
        attribute: vec!["legacyPackages".into(), "hello".into()],
        output_path: None,
    });
    assert_eq!(b.attribute, vec!["legacyPackages", "hello"]);
    assert!(b.output_path.is_none());

    let w = NixCommandWrapper::UpdateFlake(UpdateFlake { path: "x".into() });
    assert!(w.aggregate_id().is_none());
}

#[test]
fn acknowledgments() {
    let ok = acknowledgment_for(&Ok(()));
    assert_eq!(ok.status, CommandStatus::Accepted);
    assert!(ok.reason.is_none());
    let no = acknowledgment_for(&Err(NixDomainError::BuildError("failed".to_string())));
    assert_eq!(no.status, CommandStatus::Rejected);
    assert_eq!(no.reason, Some("Build error: failed".to_string()));
    assert_eq!(failed_to("run nix build", "not found"), "Failed to run nix build: not found");
}

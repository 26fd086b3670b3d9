//! Deploying an entity of a program: who may, which files it brings, and where it runs.
use vstd::prelude::*;

use crate::finance::ledger::link_of;
use crate::json::{fields_of, lemma_object, Json, Tree};
use crate::outside::{base64_bytes, base64_decode, lowercase_of, to_lowercase};
use crate::packets::program::{is_cluster_scope, DeployInput};
use crate::program::gateway::{
    entity_route_key, register_gateway_route, route_key, route_registered, GatewayRoute,
    GatewayRoutes, Route, RoutesState,
};
use crate::program::machines::{resolve_program_owner_machine, Machines, ProgramMachines};
use crate::table::{law_lookup_after_store, lookup, stored, Rows, Table};
use crate::text::{join2, join4, join_range, joined, pairs, same, texts, trim, trimmed};

verus! {

broadcast use {vstd::string::group_string_axioms, law_lookup_after_store};

/// A program: the machine it belongs to, and how it runs.
pub struct ProgramRecord {
    pub id: String,
    pub machine_id: String,
    pub runtime: String,
    pub path: String,
    pub comment: String,
}

/// A runtime or an entity type in the form in which it is compared.
pub open spec fn entity_type_of(text: Seq<char>) -> Seq<char> {
    lowercase_of(trimmed(text))
}

/// A runtime or an entity type in the form in which it is compared.
pub fn normalize_entity_type(text: &str) -> (r: String)
    ensures
        r@ == entity_type_of(text@),
{
    to_lowercase(trim(text))
}

/// How the entities of a runtime are deployed.
pub struct DeployConventions {
    pub entity_file_name: String,
    pub accepts_extra_files: bool,
    pub build_on_deploy: bool,
}

/// What a virtual machine monitor says of a deployment: the runtimes it offers, and the
/// conventions of the one that is asked for, where it offers it.
pub struct VmmOffer {
    pub runtime_keys: Vec<String>,
    pub conventions: Option<DeployConventions>,
}

/// A file of a deployment: its name, what it holds, and how it was sent.
pub struct DeployedFile {
    pub name: String,
    pub bytes: Vec<u8>,
    pub payload: String,
}

/// A file of a deployment, as texts and bytes.
pub struct FileState {
    pub name: Seq<char>,
    pub bytes: Seq<u8>,
    pub payload: Seq<char>,
}

impl View for DeployedFile {
    type V = FileState;

    open spec fn view(&self) -> FileState {
        FileState { name: self.name@, bytes: self.bytes@, payload: self.payload@ }
    }
}

/// The files of a list.
pub open spec fn files_of(list: Seq<DeployedFile>) -> Seq<FileState> {
    list.map_values(|f: DeployedFile| f@)
}

/// The record of a deployed entity.
pub struct EntityRecord {
    pub program_id: String,
    pub entity_id: String,
    pub entity_type: String,
    pub image_name: String,
}

/// The record of a deployed entity, as texts.
pub struct EntityState {
    pub program_id: Seq<char>,
    pub entity_id: Seq<char>,
    pub entity_type: Seq<char>,
    pub image_name: Seq<char>,
}

impl View for EntityRecord {
    type V = EntityState;

    open spec fn view(&self) -> EntityState {
        EntityState {
            program_id: self.program_id@,
            entity_id: self.entity_id@,
            entity_type: self.entity_type@,
            image_name: self.image_name@,
        }
    }
}

/// What the other instances of the origin are sent of a deployment that is for the whole
/// cluster: the program, the entity, its files as they came, and where it is reached.
pub struct DeployArtifact {
    pub program_id: String,
    pub entity_id: String,
    pub entity_type: String,
    pub machine_id: String,
    pub runtime: String,
    pub path: String,
    pub comment: String,
    pub primary_file_name: String,
    pub files: Vec<(String, String)>,
    pub set_entity_links: bool,
    pub build_on_deploy: bool,
    pub gateway_route: String,
    pub gateway_vm_id: String,
}

/// What the other instances of the origin are sent, as texts.
pub struct ArtifactState {
    pub program_id: Seq<char>,
    pub entity_id: Seq<char>,
    pub entity_type: Seq<char>,
    pub machine_id: Seq<char>,
    pub runtime: Seq<char>,
    pub path: Seq<char>,
    pub comment: Seq<char>,
    pub primary_file_name: Seq<char>,
    pub files: Seq<(Seq<char>, Seq<char>)>,
    pub set_entity_links: bool,
    pub build_on_deploy: bool,
    pub gateway_route: Seq<char>,
    pub gateway_vm_id: Seq<char>,
}

impl View for DeployArtifact {
    type V = ArtifactState;

    open spec fn view(&self) -> ArtifactState {
        ArtifactState {
            program_id: self.program_id@,
            entity_id: self.entity_id@,
            entity_type: self.entity_type@,
            machine_id: self.machine_id@,
            runtime: self.runtime@,
            path: self.path@,
            comment: self.comment@,
            primary_file_name: self.primary_file_name@,
            files: pairs(self.files@),
            set_entity_links: self.set_entity_links,
            build_on_deploy: self.build_on_deploy,
            gateway_route: self.gateway_route@,
            gateway_vm_id: self.gateway_vm_id@,
        }
    }
}

/// What a deployment comes to.
pub enum Deployment {
    /// The entity forwards signals to a target, with its data attached.
    Proxy { data: Vec<u8>, target: Json },
    /// The entity runs: how it is recorded, its files, the primary one first, whether the
    /// first of them is what runs and whether it may be downloaded, and what the rest of the
    /// cluster is sent, where it is part of the deployment.
    Entity {
        record: EntityRecord,
        files: Vec<DeployedFile>,
        runtime_file: bool,
        downloadable: bool,
        artifact: Option<DeployArtifact>,
    },
}

/// What a deployment comes to, as texts and bytes.
pub enum DeploymentState {
    Proxy { data: Seq<u8>, target: Tree },
    Entity {
        record: EntityState,
        files: Seq<FileState>,
        runtime_file: bool,
        downloadable: bool,
        artifact: Option<ArtifactState>,
    },
}

impl View for Deployment {
    type V = DeploymentState;

    open spec fn view(&self) -> DeploymentState {
        match self {
            Deployment::Proxy { data, target } => DeploymentState::Proxy {
                data: data@,
                target: target@,
            },
            Deployment::Entity { record, files, runtime_file, downloadable, artifact } => {
                DeploymentState::Entity {
                    record: record@,
                    files: files_of(files@),
                    runtime_file: *runtime_file,
                    downloadable: *downloadable,
                    artifact: match artifact {
                        Some(one) => Some(one@),
                        None => None,
                    },
                }
            },
        }
    }
}

/// The result of decoding, as bytes or a text.
pub open spec fn decoded(r: Result<Vec<u8>, String>) -> Result<Seq<u8>, Seq<char>> {
    match r {
        Ok(bytes) => Ok(bytes@),
        Err(e) => Err(e@),
    }
}

/// The extra files that a request lists; none where the list is missing.
pub open spec fn listed_files(metadata: Tree) -> Rows<Tree> {
    match metadata.field("files"@) {
        Some(Tree::Object(rows)) => rows,
        _ => Seq::empty(),
    }
}

/// Whether the list of extra files is something other than an object.
pub open spec fn is_no_file_list(metadata: Tree) -> bool {
    match metadata.field("files"@) {
        None => false,
        Some(Tree::Null) => false,
        Some(Tree::Object(_)) => false,
        Some(_) => true,
    }
}

/// The first `n` extra files, or what is wrong with the first faulty one. `contents` is
/// what each of them decodes to.
pub open spec fn extra_files(
    rows: Rows<Tree>,
    contents: Seq<Result<Seq<u8>, Seq<char>>>,
    n: int,
) -> Result<Seq<FileState>, Seq<char>>
    decreases n,
{
    if n <= 0 {
        Ok(Seq::empty())
    } else {
        match extra_files(rows, contents, n - 1) {
            Err(e) => Err(e),
            Ok(before) => match rows[n - 1].1 {
                Tree::Text(payload) => match contents[n - 1] {
                    Err(e) => Err(e),
                    Ok(bytes) => Ok(
                        before.push(FileState { name: rows[n - 1].0, bytes, payload }),
                    ),
                },
                _ => Err("file bytecode not string"@),
            },
        }
    }
}

/// The scope of a deployment, as it is recorded.
pub open spec fn scope_label(distributed: bool) -> Seq<char> {
    if distributed {
        "cluster"@
    } else {
        "local"@
    }
}

/// The links with the scope of an entity's deployment, which is that of its program too.
pub open spec fn with_scope(
    links: Rows<Seq<char>>,
    program: Seq<char>,
    entity: Seq<char>,
    distributed: bool,
) -> Rows<Seq<char>> {
    let label = scope_label(distributed);
    stored(
        stored(links, "vmDistribution::"@ + program, label),
        "vmDistribution::"@ + program + "::"@ + entity,
        label,
    )
}

/// The refusal of a runtime that is not offered.
pub open spec fn unknown_type(keys: Seq<Seq<char>>) -> Seq<char> {
    "invalid entityType, expected one of "@ + joined(keys, "|"@)
}

/// The links and the gateway's routes after a deployment, and what it comes to.
pub struct DeployedState {
    pub links: Rows<Seq<char>>,
    pub routes: RoutesState,
    pub deployment: DeploymentState,
}

/// The route that a deployment asks for: the path it names leads to the entity, or to the
/// instance that it pins.
pub open spec fn deployed_route(
    program: ProgramRecord,
    input: DeployInput,
    gateway_path: Seq<char>,
) -> Route {
    Route {
        creature_id: program.machine_id@,
        path: gateway_path,
        program_id: program.id@,
        entity_id: input.entity_id@,
        runtime: entity_type_of(input.entity_type@),
        pinned_vm_id: trimmed(input.metadata@.text_or_empty("gatewayVmId"@)),
    }
}

/// How the entity of a deployment is recorded.
pub open spec fn entity_record(program: ProgramRecord, input: DeployInput) -> EntityState {
    EntityState {
        program_id: program.id@,
        entity_id: input.entity_id@,
        entity_type: entity_type_of(input.entity_type@),
        image_name: input.entity_id@,
    }
}

/// The names of files, and how they were sent.
pub open spec fn shipped(files: Seq<FileState>) -> Seq<(Seq<char>, Seq<char>)> {
    files.map_values(|f: FileState| (f.name, f.payload))
}

/// What the rest of the cluster is sent of a deployment.
pub open spec fn cluster_artifact(
    program: ProgramRecord,
    input: DeployInput,
    conventions: DeployConventions,
    files: Seq<FileState>,
    gateway_path: Seq<char>,
) -> ArtifactState {
    ArtifactState {
        program_id: program.id@,
        entity_id: input.entity_id@,
        entity_type: entity_type_of(input.entity_type@),
        machine_id: program.machine_id@,
        runtime: program.runtime@,
        path: program.path@,
        comment: program.comment@,
        primary_file_name: conventions.entity_file_name@,
        files: shipped(files),
        set_entity_links: true,
        build_on_deploy: conventions.build_on_deploy,
        gateway_route: gateway_path,
        gateway_vm_id: trimmed(input.metadata@.text_or_empty("gatewayVmId"@)),
    }
}

/// The path that a deployment asks for, as it was written.
pub fn requested_path<'a>(input: &'a DeployInput) -> (r: &'a str)
    ensures
        r@ == input.metadata@.text_or_empty("gatewayPath"@),
{
    input.metadata.text_or_empty("gatewayPath")
}

/// The records after a deployment, and what it comes to. `payload` and `contents` are what
/// the primary file and the extra files decode to; `proxy_key` is the type of entities that
/// only forward, and `proxy_target` where they forward to; `gateway_path` is the normalized
/// form of the path that the request asks for.
pub open spec fn deployed(
    links: Rows<Seq<char>>,
    routes: RoutesState,
    input: DeployInput,
    program: Option<ProgramRecord>,
    machine: Machines,
    caller: Seq<char>,
    proxy_key: Seq<char>,
    proxy_target: Result<Tree, Seq<char>>,
    vmm: Option<VmmOffer>,
    cluster: bool,
    payload: Result<Seq<u8>, Seq<char>>,
    contents: Seq<Result<Seq<u8>, Seq<char>>>,
    gateway_path: Seq<char>,
) -> Result<DeployedState, Seq<char>> {
    let entity_type = entity_type_of(input.entity_type@);
    let metadata = input.metadata@;
    match program {
        None => Err("program not found"@),
        Some(record) => if machine.owner().owner_id != caller {
            Err("access to vm denied"@)
        } else if entity_type == proxy_key {
            match proxy_target {
                Err(e) => Err(e),
                Ok(target) => match payload {
                    Err(e) => Err(e),
                    Ok(data) => Ok(
                        DeployedState {
                            links,
                            routes,
                            deployment: DeploymentState::Proxy { data, target },
                        },
                    ),
                },
            }
        } else {
            match vmm {
                None => Err("this node has no VMM (ASEMAN_VMM_ENDPOINT)"@),
                Some(offer) => match offer.conventions {
                    None => Err(unknown_type(texts(offer.runtime_keys@))),
                    Some(conventions) => match payload {
                        Err(e) => Err(e),
                        Ok(data) => {
                            let distributed = (input.distributed || is_cluster_scope(
                                input.distribution@,
                            )) && cluster;
                            let primary = FileState {
                                name: conventions.entity_file_name@,
                                bytes: data,
                                payload: input.payload@,
                            };
                            let rows = listed_files(metadata);
                            let extra = if conventions.accepts_extra_files {
                                if is_no_file_list(metadata) {
                                    Err("files is not map"@)
                                } else {
                                    extra_files(rows, contents, rows.len() as int)
                                }
                            } else {
                                Ok(Seq::empty())
                            };
                            match extra {
                                Err(e) => Err(e),
                                Ok(more) => Ok(
                                    DeployedState {
                                        links: with_scope(
                                            links,
                                            record.id@,
                                            input.entity_id@,
                                            distributed,
                                        ),
                                        routes: route_registered(
                                            routes,
                                            deployed_route(record, input, gateway_path),
                                            machine.recorded.local_part,
                                        ),
                                        deployment: DeploymentState::Entity {
                                            record: entity_record(record, input),
                                            files: seq![primary] + more,
                                            runtime_file: true,
                                            downloadable: input.downloadable,
                                            artifact: if distributed {
                                                Some(
                                                    cluster_artifact(
                                                        record,
                                                        input,
                                                        conventions,
                                                        seq![primary] + more,
                                                        gateway_path,
                                                    ),
                                                )
                                            } else {
                                                None
                                            },
                                        },
                                    },
                                ),
                            }
                        },
                    },
                },
            }
        },
    }
}

proof fn lemma_extra_fault(
    rows: Rows<Tree>,
    contents: Seq<Result<Seq<u8>, Seq<char>>>,
    n: int,
    m: int,
)
    requires
        n <= m,
        extra_files(rows, contents, n) is Err,
    ensures
        extra_files(rows, contents, m) == extra_files(rows, contents, n),
    decreases m - n,
{
    if n < m {
        lemma_extra_fault(rows, contents, n, m - 1);
    }
}

/// What each of a list of files decodes to.
pub open spec fn all_decoded(list: Seq<Result<Vec<u8>, String>>) -> Seq<
    Result<Seq<u8>, Seq<char>>,
> {
    list.map_values(|r: Result<Vec<u8>, String>| decoded(r))
}

fn take_files(
    fields: &Vec<(String, Json)>,
    contents: &Vec<Result<Vec<u8>, String>>,
    files: Vec<DeployedFile>,
) -> (r: Result<Vec<DeployedFile>, String>)
    requires
        contents@.len() == fields@.len(),
    ensures
        match r {
            Ok(out) => exists|more: Seq<FileState>|
                extra_files(
                    fields_of(fields@),
                    all_decoded(contents@),
                    fields@.len() as int,
                ) == Ok::<Seq<FileState>, Seq<char>>(more) && files_of(out@) == #[trigger] (
                files_of(files@) + more),
            Err(e) => extra_files(
                fields_of(fields@),
                all_decoded(contents@),
                fields@.len() as int,
            ) == Err::<Seq<FileState>, Seq<char>>(e@),
        },
{
    let ghost rows = fields_of(fields@);
    let ghost all = all_decoded(contents@);
    let ghost first = files_of(files@);
    let mut out = files;
    let ghost mut more: Seq<FileState> = Seq::empty();
    assert(first + more =~= first);
    let mut i: usize = 0;
    while i < fields.len()
        invariant
            i <= fields@.len(),
            contents@.len() == fields@.len(),
            rows == fields_of(fields@),
            all == all_decoded(contents@),
            extra_files(rows, all, i as int) == Ok::<Seq<FileState>, Seq<char>>(more),
            files_of(out@) == first + more,
        decreases fields.len() - i,
    {
        assert(rows[i as int] == (fields@[i as int].0@, fields@[i as int].1@));
        assert(all[i as int] == decoded(contents@[i as int]));
        match &fields[i].1 {
            Json::Text(payload) => match &contents[i] {
                Ok(bytes) => {
                    let file = DeployedFile {
                        name: fields[i].0.clone(),
                        bytes: copy_bytes(bytes),
                        payload: payload.clone(),
                    };
                    let ghost before = out@;
                    let ghost added = file@;
                    out.push(file);
                    proof {
                        assert(files_of(out@) =~= files_of(before).push(added));
                        assert(files_of(before).push(added) =~= first + more.push(added));
                        more = more.push(added);
                    }
                },
                Err(e) => {
                    proof {
                        lemma_extra_fault(rows, all, i + 1, fields@.len() as int);
                    }
                    return Err(e.clone());
                },
            },
            _ => {
                proof {
                    lemma_extra_fault(rows, all, i + 1, fields@.len() as int);
                }
                return Err("file bytecode not string".to_owned());
            },
        }
        i = i + 1;
    }
    assert(files_of(out@) == first + more);
    Ok(out)
}

fn copy_bytes(bytes: &Vec<u8>) -> (r: Vec<u8>)
    ensures
        r@ == bytes@,
{
    let mut out: Vec<u8> = Vec::new();
    let mut i: usize = 0;
    while i < bytes.len()
        invariant
            i <= bytes@.len(),
            out@ == bytes@.subrange(0, i as int),
        decreases bytes.len() - i,
    {
        out.push(bytes[i]);
        i = i + 1;
        assert(out@ =~= bytes@.subrange(0, i as int));
    }
    assert(bytes@.subrange(0, bytes@.len() as int) =~= bytes@);
    out
}

fn ship(files: &Vec<DeployedFile>) -> (r: Vec<(String, String)>)
    ensures
        pairs(r@) == shipped(files_of(files@)),
{
    let mut out: Vec<(String, String)> = Vec::new();
    let mut i: usize = 0;
    while i < files.len()
        invariant
            i <= files@.len(),
            out@.len() == i,
            forall|j: int|
                0 <= j < i ==> (#[trigger] out@[j]).0@ == files@[j].name@ && out@[j].1@
                    == files@[j].payload@,
        decreases files.len() - i,
    {
        out.push((files[i].name.clone(), files[i].payload.clone()));
        i = i + 1;
    }
    assert(pairs(out@) =~= shipped(files_of(files@)));
    out
}

fn record_scope(links: &mut Table<String>, program: &str, entity: &str, distributed: bool)
    ensures
        final(links)@ == with_scope(old(links)@, program@, entity@, distributed),
{
    let label: &str = if distributed {
        "cluster"
    } else {
        "local"
    };
    let all = join2("vmDistribution::", program);
    let one = join4("vmDistribution::", program, "::", entity);
    links.put(all.as_str(), label.to_owned());
    links.put(one.as_str(), label.to_owned());
}

/// Deploy an entity whose files have been decoded.
pub fn deploy_decoded(
    links: &mut Table<String>,
    routes: &mut GatewayRoutes,
    input: &DeployInput,
    program: Option<&ProgramRecord>,
    machine: &ProgramMachines,
    caller: &str,
    proxy_key: &str,
    proxy_target: &Result<Json, String>,
    vmm: Option<&VmmOffer>,
    cluster: bool,
    payload: Result<Vec<u8>, String>,
    contents: &Vec<Result<Vec<u8>, String>>,
    gateway_path: &str,
) -> (r: Result<Deployment, String>)
    requires
        contents@.len() == listed_files(input.metadata@).len(),
    ensures
        match r {
            Ok(deployment) => deployed(
                old(links)@,
                old(routes)@,
                *input,
                match program {
                    Some(record) => Some(*record),
                    None => None,
                },
                machine@,
                caller@,
                proxy_key@,
                match *proxy_target {
                    Ok(target) => Ok(target@),
                    Err(e) => Err(e@),
                },
                match vmm {
                    Some(offer) => Some(*offer),
                    None => None,
                },
                cluster,
                decoded(payload),
                all_decoded(contents@),
                gateway_path@,
            ) == Ok::<DeployedState, Seq<char>>(
                (DeployedState {
                    links: final(links)@,
                    routes: final(routes)@,
                    deployment: deployment@,
                }),
            ),
            Err(e) => final(links)@ == old(links)@ && final(routes)@ == old(routes)@ && deployed(
                old(links)@,
                old(routes)@,
                *input,
                match program {
                    Some(record) => Some(*record),
                    None => None,
                },
                machine@,
                caller@,
                proxy_key@,
                match *proxy_target {
                    Ok(target) => Ok(target@),
                    Err(e) => Err(e@),
                },
                match vmm {
                    Some(offer) => Some(*offer),
                    None => None,
                },
                cluster,
                decoded(payload),
                all_decoded(contents@),
                gateway_path@,
            ) == Err::<DeployedState, Seq<char>>(e@),
        },
{
    let record = match program {
        Some(record) => record,
        None => {
            return Err("program not found".to_owned());
        },
    };
    let owner = resolve_program_owner_machine(&machine.recorded, &machine.linked);
    if !same(owner.owner_id.as_str(), caller) {
        return Err("access to vm denied".to_owned());
    }
    let entity_type = normalize_entity_type(input.entity_type.as_str());
    if same(entity_type.as_str(), proxy_key) {
        let target = match proxy_target {
            Ok(target) => target.copy(),
            Err(e) => {
                return Err(e.clone());
            },
        };
        return match payload {
            Ok(data) => Ok(Deployment::Proxy { data, target }),
            Err(e) => Err(e),
        };
    }
    let offer = match vmm {
        Some(offer) => offer,
        None => {
            return Err("this node has no VMM (ASEMAN_VMM_ENDPOINT)".to_owned());
        },
    };
    let conventions = match &offer.conventions {
        Some(conventions) => conventions,
        None => {
            let keys = join_range(&offer.runtime_keys, 0, offer.runtime_keys.len(), "|");
            assert(texts(offer.runtime_keys@).subrange(
                0,
                offer.runtime_keys@.len() as int,
            ) =~= texts(offer.runtime_keys@));
            return Err(join2("invalid entityType, expected one of ", keys.as_str()));
        },
    };
    let data = match payload {
        Ok(data) => data,
        Err(e) => {
            return Err(e);
        },
    };
    let distributed: bool = input.wants_distribution() && cluster;
    let mut files: Vec<DeployedFile> = Vec::new();
    files.push(
        DeployedFile {
            name: conventions.entity_file_name.clone(),
            bytes: data,
            payload: input.payload.clone(),
        },
    );
    let ghost primary = FileState {
        name: conventions.entity_file_name@,
        bytes: data@,
        payload: input.payload@,
    };
    assert(files_of(files@) =~= seq![primary]);
    assert(seq![primary] + Seq::<FileState>::empty() =~= seq![primary]);
    if conventions.accepts_extra_files {
        match input.metadata.field("files") {
            None => {},
            Some(Json::Null) => {},
            Some(Json::Object(fields)) => {
                proof {
                    lemma_object(*fields);
                }
                match take_files(fields, contents, files) {
                    Ok(all) => {
                        files = all;
                    },
                    Err(e) => {
                        return Err(e);
                    },
                }
            },
            Some(_) => {
                return Err("files is not map".to_owned());
            },
        }
    }
    let gateway_vm_id = trim(input.metadata.text_or_empty("gatewayVmId")).to_owned();
    let route = GatewayRoute {
        creature_id: record.machine_id.clone(),
        path: gateway_path.to_owned(),
        program_id: record.id.clone(),
        entity_id: input.entity_id.clone(),
        runtime: entity_type.clone(),
        pinned_vm_id: gateway_vm_id.clone(),
    };
    assert(route@ == deployed_route(*record, *input, gateway_path@));
    register_gateway_route(routes, &route, machine.recorded.local_part.as_str());
    record_scope(links, record.id.as_str(), input.entity_id.as_str(), distributed);
    let artifact: Option<DeployArtifact> = if distributed {
        Some(
            DeployArtifact {
                program_id: record.id.clone(),
                entity_id: input.entity_id.clone(),
                entity_type: entity_type.clone(),
                machine_id: record.machine_id.clone(),
                runtime: record.runtime.clone(),
                path: record.path.clone(),
                comment: record.comment.clone(),
                primary_file_name: conventions.entity_file_name.clone(),
                files: ship(&files),
                set_entity_links: true,
                build_on_deploy: conventions.build_on_deploy,
                gateway_route: gateway_path.to_owned(),
                gateway_vm_id,
            },
        )
    } else {
        None
    };
    Ok(
        Deployment::Entity {
            record: EntityRecord {
                program_id: record.id.clone(),
                entity_id: input.entity_id.clone(),
                entity_type,
                image_name: input.entity_id.clone(),
            },
            files,
            runtime_file: true,
            downloadable: input.downloadable,
            artifact,
        },
    )
}

/// What the listed files of a request decode to; an entry that is no text decodes to the
/// complaint that it is none.
pub open spec fn contents_of(rows: Rows<Tree>) -> Seq<Result<Seq<u8>, Seq<char>>> {
    rows.map_values(
        |row: (Seq<char>, Tree)|
            match row.1 {
                Tree::Text(payload) => base64_bytes(payload),
                _ => Err("file bytecode not string"@),
            },
    )
}

fn decode_listed(metadata: &Json) -> (r: Vec<Result<Vec<u8>, String>>)
    ensures
        r@.len() == listed_files(metadata@).len(),
        all_decoded(r@) == contents_of(listed_files(metadata@)),
{
    let mut out: Vec<Result<Vec<u8>, String>> = Vec::new();
    match metadata.field("files") {
        Some(Json::Object(fields)) => {
            proof {
                lemma_object(*fields);
            }
            let ghost goal = contents_of(fields_of(fields@));
            let mut i: usize = 0;
            while i < fields.len()
                invariant
                    i <= fields@.len(),
                    goal == contents_of(fields_of(fields@)),
                    all_decoded(out@) == goal.subrange(0, i as int),
                    out@.len() == i,
                decreases fields.len() - i,
            {
                let one: Result<Vec<u8>, String> = match &fields[i].1 {
                    Json::Text(payload) => base64_decode(payload.as_str()),
                    _ => Err("file bytecode not string".to_owned()),
                };
                let ghost before = out@;
                assert(decoded(one) == goal[i as int]);
                out.push(one);
                assert(all_decoded(out@) =~= all_decoded(before).push(goal[i as int]));
                assert(goal.subrange(0, i + 1) =~= goal.subrange(0, i as int).push(goal[i as int]));
                i = i + 1;
            }
            assert(goal.subrange(0, goal.len() as int) =~= goal);
        },
        _ => {
            assert(all_decoded(out@) =~= contents_of(Seq::empty()));
        },
    }
    out
}

/// Deploy an entity of a program: decode its files, and record where it runs.
pub fn deploy(
    links: &mut Table<String>,
    routes: &mut GatewayRoutes,
    input: &DeployInput,
    program: Option<&ProgramRecord>,
    machine: &ProgramMachines,
    caller: &str,
    proxy_key: &str,
    proxy_target: &Result<Json, String>,
    vmm: Option<&VmmOffer>,
    cluster: bool,
    gateway_path: &str,
) -> (r: Result<Deployment, String>)
    ensures
        match r {
            Ok(deployment) => deployed(
                old(links)@,
                old(routes)@,
                *input,
                match program {
                    Some(record) => Some(*record),
                    None => None,
                },
                machine@,
                caller@,
                proxy_key@,
                match *proxy_target {
                    Ok(target) => Ok(target@),
                    Err(e) => Err(e@),
                },
                match vmm {
                    Some(offer) => Some(*offer),
                    None => None,
                },
                cluster,
                base64_bytes(input.payload@),
                contents_of(listed_files(input.metadata@)),
                gateway_path@,
            ) == Ok::<DeployedState, Seq<char>>(
                (DeployedState {
                    links: final(links)@,
                    routes: final(routes)@,
                    deployment: deployment@,
                }),
            ),
            Err(e) => final(links)@ == old(links)@ && final(routes)@ == old(routes)@ && deployed(
                old(links)@,
                old(routes)@,
                *input,
                match program {
                    Some(record) => Some(*record),
                    None => None,
                },
                machine@,
                caller@,
                proxy_key@,
                match *proxy_target {
                    Ok(target) => Ok(target@),
                    Err(e) => Err(e@),
                },
                match vmm {
                    Some(offer) => Some(*offer),
                    None => None,
                },
                cluster,
                base64_bytes(input.payload@),
                contents_of(listed_files(input.metadata@)),
                gateway_path@,
            ) == Err::<DeployedState, Seq<char>>(e@),
        },
{
    let payload = base64_decode(input.payload.as_str());
    let contents = decode_listed(&input.metadata);
    deploy_decoded(
        links,
        routes,
        input,
        program,
        machine,
        caller,
        proxy_key,
        proxy_target,
        vmm,
        cluster,
        payload,
        &contents,
        gateway_path,
    )
}

// ---------------------------------------------------------------- laws

/// Only the owner of a program's machine deploys to it.
pub proof fn law_only_the_owner_deploys(
    links: Rows<Seq<char>>,
    routes: RoutesState,
    input: DeployInput,
    program: Option<ProgramRecord>,
    machine: Machines,
    caller: Seq<char>,
    proxy_key: Seq<char>,
    proxy_target: Result<Tree, Seq<char>>,
    vmm: Option<VmmOffer>,
    cluster: bool,
    payload: Result<Seq<u8>, Seq<char>>,
    contents: Seq<Result<Seq<u8>, Seq<char>>>,
    gateway_path: Seq<char>,
)
    requires
        machine.owner().owner_id != caller,
    ensures
        deployed(
            links,
            routes,
            input,
            program,
            machine,
            caller,
            proxy_key,
            proxy_target,
            vmm,
            cluster,
            payload,
            contents,
            gateway_path,
        ) is Err,
{
}

/// A deployment is recorded as local unless the developer asked for the cluster and the
/// node is part of one.
pub proof fn law_deployments_are_local_by_default(
    links: Rows<Seq<char>>,
    routes: RoutesState,
    input: DeployInput,
    program: ProgramRecord,
    machine: Machines,
    caller: Seq<char>,
    proxy_key: Seq<char>,
    proxy_target: Result<Tree, Seq<char>>,
    vmm: Option<VmmOffer>,
    cluster: bool,
    payload: Result<Seq<u8>, Seq<char>>,
    contents: Seq<Result<Seq<u8>, Seq<char>>>,
    gateway_path: Seq<char>,
    after: DeployedState,
)
    requires
        deployed(
            links,
            routes,
            input,
            Some(program),
            machine,
            caller,
            proxy_key,
            proxy_target,
            vmm,
            cluster,
            payload,
            contents,
            gateway_path,
        ) == Ok::<DeployedState, Seq<char>>(after),
        after.deployment is Entity,
        !cluster || (!input.distributed && !is_cluster_scope(input.distribution@)),
    ensures
        lookup(
            after.links,
            "vmDistribution::"@ + program.id@ + "::"@ + input.entity_id@,
        ) == Some("local"@),
{
}

/// An entity that is deployed under a path answers there: the path leads to it, and it finds
/// its way back.
pub proof fn law_a_deployed_path_leads_to_its_entity(
    links: Rows<Seq<char>>,
    routes: RoutesState,
    input: DeployInput,
    program: ProgramRecord,
    machine: Machines,
    caller: Seq<char>,
    proxy_key: Seq<char>,
    proxy_target: Result<Tree, Seq<char>>,
    vmm: Option<VmmOffer>,
    cluster: bool,
    payload: Result<Seq<u8>, Seq<char>>,
    contents: Seq<Result<Seq<u8>, Seq<char>>>,
    gateway_path: Seq<char>,
    after: DeployedState,
)
    requires
        deployed(
            links,
            routes,
            input,
            Some(program),
            machine,
            caller,
            proxy_key,
            proxy_target,
            vmm,
            cluster,
            payload,
            contents,
            gateway_path,
        ) == Ok::<DeployedState, Seq<char>>(after),
        after.deployment is Entity,
        gateway_path.len() > 0,
        program.machine_id@.len() > 0,
    ensures
        lookup(after.routes.routes, route_key(program.machine_id@, gateway_path)) == Some(
            deployed_route(program, input, gateway_path),
        ),
        link_of(after.routes.by_entity, entity_route_key(program.id@, input.entity_id@))
            == program.machine_id@ + "::"@ + gateway_path,
{
}

} // verus!

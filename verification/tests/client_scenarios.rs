use nfs4_client::args::{CreateHow, OpenClaim, OpenFlag, StateProtect};
use nfs4_client::attr::{FileAttribute, FileAttributeId, FileAttributes, FileType};
use nfs4_client::basic::{
    ChangeId, ChangeInfo, ClientId, Cookie, FileHandle, Mode, SequenceId, SessionId, SlotId,
    StableHow, StateId, Time, Verifier,
};
use nfs4_client::client::{Client, NFS, NFS_CB};
use nfs4_client::compound::{Error, Mismatch};
use nfs4_client::enum_map::{EnumMap, EnumSet};
use nfs4_client::flags::{
    CreateSessionFlags, ExchangeIdFlags, OpenResult, SequenceStatusFlags, ShareAccess,
};
use nfs4_client::ops::{ArgOp, CompoundArgs, CompoundRes, OperationId, ResOp};
use nfs4_client::res::{
    CreateSessionRes, DirectoryEntry, DirectoryList, ExchangeIdRes, GetAttrRes, GetFhRes,
    OpenDelegation, OpenRes, ReadDirRes, ReadRes, RemoveRes, RenameRes, SequenceRes, ServerOwner,
    ServerScope, SetAttrRes, SetAttrStatusResult, WriteRes,
};
use nfs4_client::rpc::{
    AcceptedReply, AcceptedReplyBody, AuthFlavor, Message, MessageBody, OpaqueAuth, ReplyBody,
};
use nfs4_client::rpc_client::{
    decode_fragment, encode_fragment, Link, RpcClient, Transport, NULL_PROCEDURE, PORT_MAPPER,
};
use nfs4_client::status::{StatusError, StatusResult};
use nfs4_client::xdr::{from_bytes, to_bytes};
use std::collections::{BTreeMap, BTreeSet, VecDeque};

/// A server that keeps its files in memory and answers on the spot.
struct Server {
    outgoing: VecDeque<u8>,
    files: BTreeMap<String, Vec<u8>>,
    directories: BTreeSet<String>,
    calls: Vec<(u32, u32, u32)>,
    compounds: Vec<CompoundArgs>,
    max_read: u64,
    max_write: u64,
    takes_at_most: u32,
    entries_at_once: usize,
    stalls: bool,
    answers_with: Option<Vec<ResOp>>,
    session: [u8; 16],
    owner: Option<Vec<u8>>,
}

type Outcome<T> = Result<T, StatusError>;

fn change() -> ChangeInfo {
    ChangeInfo { atomic: true, before: ChangeId(1), after: ChangeId(2) }
}

fn join(directory: &str, name: &str) -> String {
    if directory == "/" {
        format!("/{name}")
    } else {
        format!("{directory}/{name}")
    }
}

fn parent_of(path: &str) -> String {
    match path.rfind('/') {
        Some(0) | None => "/".to_string(),
        Some(i) => path[..i].to_string(),
    }
}

impl Server {
    fn new() -> Self {
        let mut directories = BTreeSet::new();
        directories.insert("/".to_string());
        directories.insert("/files".to_string());
        Self {
            outgoing: VecDeque::new(),
            files: BTreeMap::new(),
            directories,
            calls: vec![],
            compounds: vec![],
            max_read: 8192,
            max_write: 4096,
            takes_at_most: u32::MAX,
            entries_at_once: 7,
            stalls: false,
            answers_with: None,
            session: [0xab; 16],
            owner: None,
        }
    }

    fn supported() -> EnumSet<FileAttributeId> {
        EnumSet::from_slice(&[
            FileAttributeId::SupportedAttrs,
            FileAttributeId::Type,
            FileAttributeId::Size,
            FileAttributeId::FileHandle,
            FileAttributeId::MaxRead,
            FileAttributeId::MaxWrite,
            FileAttributeId::Mode,
            FileAttributeId::NumLinks,
            FileAttributeId::Owner,
            FileAttributeId::TimeAccessSet,
            FileAttributeId::TimeModify,
            FileAttributeId::TimeModifySet,
        ])
    }

    fn holds(&self, path: &str) -> bool {
        self.files.contains_key(path) || self.directories.contains(path)
    }

    fn attributes(&self, path: &str, asked: &EnumSet<FileAttributeId>) -> FileAttributes {
        let mut attrs = EnumMap::new();
        for id in asked.to_vec() {
            let value = match id {
                FileAttributeId::SupportedAttrs => FileAttribute::SupportedAttrs(Self::supported()),
                FileAttributeId::Type => FileAttribute::Type(if self.directories.contains(path) {
                    FileType::Directory
                } else {
                    FileType::Regular
                }),
                FileAttributeId::Size => {
                    FileAttribute::Size(self.files.get(path).map_or(0, |f| f.len() as u64))
                }
                FileAttributeId::FileHandle => {
                    FileAttribute::FileHandle(FileHandle(path.as_bytes().to_vec()))
                }
                FileAttributeId::MaxRead => FileAttribute::MaxRead(self.max_read),
                FileAttributeId::MaxWrite => FileAttribute::MaxWrite(self.max_write),
                FileAttributeId::Mode => FileAttribute::Mode(Mode(0o644)),
                FileAttributeId::NumLinks => FileAttribute::NumLinks(1),
                FileAttributeId::Owner => FileAttribute::Owner("root".to_string()),
                FileAttributeId::TimeModify => {
                    FileAttribute::TimeModify(Time { seconds: 1_700_000_000, nseconds: 0 })
                }
                _ => continue,
            };
            attrs.insert(value);
        }
        attrs
    }

    fn perform(
        &mut self,
        op: &ArgOp,
        current: &mut Option<String>,
        saved: &mut Option<String>,
    ) -> ResOp {
        fn done<T>(outcome: Outcome<T>) -> StatusResult<T> {
            match outcome {
                Ok(v) => StatusResult::Success(v),
                Err(e) => StatusResult::Failure(e),
            }
        }
        let here = current.clone().ok_or(StatusError::NoFileHandle);
        match op {
            ArgOp::Sequence(args) => ResOp::Sequence(done(if args.session_id.0 == self.session {
                Ok(SequenceRes {
                    session_id: args.session_id,
                    sequence_id: args.sequence_id,
                    slot_id: args.slot_id,
                    highest_slot_id: SlotId(0),
                    target_highest_slot_id: SlotId(0),
                    status_flags: SequenceStatusFlags::empty(),
                })
            } else {
                Err(StatusError::BadSession)
            })),
            ArgOp::ExchangeId(args) => {
                self.owner = Some(args.client_owner.owner_id.clone());
                ResOp::ExchangeId(StatusResult::Success(ExchangeIdRes {
                    client_id: ClientId(77),
                    sequence_id: SequenceId(1),
                    flags: ExchangeIdFlags { bits: ExchangeIdFlags::USE_NON_PNFS },
                    state_protect: StateProtect::Null,
                    server_owner: ServerOwner { minor_id: 0, major_id: b"server".to_vec() },
                    server_scope: ServerScope(b"scope".to_vec()),
                    server_impl_id: None,
                }))
            }
            ArgOp::CreateSession(args) => ResOp::CreateSession(StatusResult::Success(
                CreateSessionRes {
                    session_id: SessionId(self.session),
                    sequence_id: args.sequence_id,
                    flags: CreateSessionFlags::empty(),
                    fore_channel_attrs: args.fore_channel_attrs.clone(),
                    back_channel_attrs: args.back_channel_attrs.clone(),
                },
            )),
            ArgOp::ReclaimComplete(_) => ResOp::ReclaimComplete(StatusResult::Success(())),
            ArgOp::PutRootFh => {
                *current = Some("/".to_string());
                ResOp::PutRootFh(StatusResult::Success(()))
            }
            ArgOp::PutFh(args) => {
                let path = String::from_utf8(args.object.0.clone()).unwrap();
                ResOp::PutFh(done(if self.holds(&path) {
                    *current = Some(path);
                    Ok(())
                } else {
                    Err(StatusError::Stale)
                }))
            }
            ArgOp::SaveFh => {
                *saved = current.clone();
                ResOp::SaveFh(done(here.map(|_| ())))
            }
            ArgOp::GetFh => ResOp::GetFh(done(
                here.map(|path| GetFhRes { object: FileHandle(path.into_bytes()) }),
            )),
            ArgOp::LookUp(args) => ResOp::LookUp(done(here.and_then(|directory| {
                let path = join(&directory, &args.object_name);
                if self.holds(&path) {
                    *current = Some(path);
                    Ok(())
                } else {
                    Err(StatusError::NoEnt)
                }
            }))),
            ArgOp::GetAttr(args) => ResOp::GetAttr(done(here.and_then(|path| {
                if args.attr_request.contains(FileAttributeId::TimeAccessSet)
                    || args.attr_request.contains(FileAttributeId::TimeModifySet)
                {
                    Err(StatusError::Inval)
                } else {
                    Ok(GetAttrRes { object_attributes: self.attributes(&path, &args.attr_request) })
                }
            }))),
            ArgOp::Read(args) => ResOp::Read(done(here.and_then(|path| {
                let file = self.files.get(&path).ok_or(StatusError::Isdir)?;
                if self.stalls {
                    return Ok(ReadRes { eof: false, data: vec![] });
                }
                let start = (args.offset as usize).min(file.len());
                let count = (args.count as u64).min(self.max_read) as usize;
                let end = (start + count).min(file.len());
                Ok(ReadRes { eof: end == file.len(), data: file[start..end].to_vec() })
            }))),
            ArgOp::Write(args) => ResOp::Write(done(here.and_then(|path| {
                let takes = (args.data.len() as u32).min(self.takes_at_most);
                let file = self.files.get_mut(&path).ok_or(StatusError::Isdir)?;
                let start = args.offset as usize;
                let end = start + takes as usize;
                if file.len() < end {
                    file.resize(end, 0);
                }
                file[start..end].copy_from_slice(&args.data[..takes as usize]);
                Ok(WriteRes {
                    count: if self.stalls { 0 } else { takes },
                    committed: StableHow::FileSync,
                    write_veritifer: Verifier(0),
                })
            }))),
            ArgOp::Open(args) => ResOp::Open(done(here.and_then(|directory| {
                let OpenClaim::Null { file } = &args.claim else {
                    return Err(StatusError::NotSupported);
                };
                let path = join(&directory, file);
                match &args.open_how {
                    OpenFlag::OpenCreate(_) => {
                        if self.holds(&path) {
                            return Err(StatusError::Exist);
                        }
                        self.files.insert(path.clone(), vec![]);
                    }
                    OpenFlag::OpenNoCreate => {
                        if !self.holds(&path) {
                            return Err(StatusError::NoEnt);
                        }
                    }
                }
                *current = Some(path);
                Ok(OpenRes {
                    state_id: StateId { sequence_id: 1, other: [1; 12] },
                    change_info: change(),
                    result_flags: OpenResult::empty(),
                    attribute_set: EnumSet::new(),
                    delegation: OpenDelegation::Null,
                })
            }))),
            ArgOp::ReadDir(args) => ResOp::ReadDir(done(here.and_then(|directory| {
                if !self.directories.contains(&directory) {
                    return Err(StatusError::NotDir);
                }
                let names: Vec<String> = self
                    .files
                    .keys()
                    .chain(self.directories.iter())
                    .filter(|p| p.as_str() != "/" && parent_of(p) == directory)
                    .cloned()
                    .collect();
                let from = args.cookie.0 as usize;
                let until = if self.stalls { from } else { (from + self.entries_at_once).min(names.len()) };
                let entries = (from..until)
                    .map(|i| DirectoryEntry {
                        cookie: Cookie(i as u64 + 1),
                        name: names[i][directory.len()..].trim_start_matches('/').to_string(),
                        attrs: self.attributes(&names[i], &args.attr_request),
                    })
                    .collect();
                Ok(ReadDirRes {
                    cookie_verifier: Verifier(0),
                    reply: DirectoryList { entries, eof: !self.stalls && until == names.len() },
                })
            }))),
            ArgOp::Remove(args) => ResOp::Remove(done(here.and_then(|directory| {
                self.files
                    .remove(&join(&directory, &args.target))
                    .map(|_| RemoveRes { change_info: change() })
                    .ok_or(StatusError::NoEnt)
            }))),
            ArgOp::Rename(args) => ResOp::Rename(done(here.and_then(|target| {
                let source = saved.clone().ok_or(StatusError::RestoreFh)?;
                let contents =
                    self.files.remove(&join(&source, &args.old_name)).ok_or(StatusError::NoEnt)?;
                self.files.insert(join(&target, &args.new_name), contents);
                Ok(RenameRes { source_change_info: change(), target_change_info: change() })
            }))),
            ArgOp::SetAttr(args) => {
                let mut set = EnumSet::new();
                let status = done(here.and_then(|path| {
                    let file = self.files.get_mut(&path).ok_or(StatusError::Isdir)?;
                    for value in args.object_attributes.values() {
                        match value {
                            FileAttribute::Size(size) => {
                                file.resize(*size as usize, 0);
                                set.insert(FileAttributeId::Size);
                            }
                            _ => return Err(StatusError::AttrNotSupported),
                        }
                    }
                    Ok(())
                }));
                ResOp::SetAttr(SetAttrStatusResult { status, res: SetAttrRes { attr_set: set } })
            }
            _ => panic!("the server was not asked to do this before: {op:?}"),
        }
    }

    fn answer(&mut self, args: CompoundArgs) -> CompoundRes {
        let mut current = None;
        let mut saved = None;
        let mut res_array = vec![];
        let mut status = StatusResult::Success(());
        for op in &args.arg_array {
            let res = self.perform(op, &mut current, &mut saved);
            let encoded = to_bytes(&res).unwrap();
            let code = u32::from_be_bytes([encoded[4], encoded[5], encoded[6], encoded[7]]);
            let failure = StatusError::from_code(code);
            res_array.push(res);
            if let Some(e) = failure {
                status = StatusResult::Failure(e);
                break;
            }
        }
        if let Some(results) = self.answers_with.take() {
            res_array = results;
        }
        self.compounds.push(args.clone());
        CompoundRes { status, tag: args.tag, res_array }
    }

    fn sequence_ids(&self) -> Vec<u32> {
        self.compounds
            .iter()
            .filter_map(|c| match c.arg_array.first() {
                Some(ArgOp::Sequence(s)) => Some(s.sequence_id.0),
                _ => None,
            })
            .collect()
    }

    fn operations(&self, compound: usize) -> Vec<OperationId> {
        self.compounds[compound].arg_array.iter().map(|op| op.operation_id()).collect()
    }
}

impl Transport for Server {
    fn write_all(&mut self, bytes: &[u8]) -> Result<(), std::io::Error> {
        let (payload, rest) = decode_fragment(bytes).unwrap();
        assert!(rest.is_empty());
        let xid = payload[..4].to_vec();
        let word = |i: usize| u32::from_be_bytes(payload[4 * i..4 * i + 4].try_into().unwrap());
        assert_eq!((word(1), word(2), word(4)), (0, 2, 4));
        self.calls.push((u32::from_be_bytes(xid.clone().try_into().unwrap()), word(3), word(5)));
        let reply = |body: Vec<u8>| {
            let mut message = xid.clone();
            message.extend_from_slice(&[0, 0, 0, 1, 0, 0, 0, 0, 0, 0, 0, 0, 0, 0, 0, 0, 0, 0, 0, 0]);
            message.extend_from_slice(&body);
            encode_fragment(&message).unwrap()
        };
        let record = if word(5) == NULL_PROCEDURE {
            reply(vec![])
        } else {
            let message: Message<CompoundArgs> = from_bytes(payload).unwrap();
            assert_eq!(to_bytes(&message).unwrap(), payload);
            let MessageBody::Call(call) = message.body else { panic!("a call was expected") };
            assert_eq!(call.credential.flavor, AuthFlavor::Sys);
            assert_eq!(call.verifier, OpaqueAuth::none());
            let answer = self.answer(call.call_args);
            let whole = to_bytes(&Message {
                xid: message.xid,
                body: MessageBody::Reply(ReplyBody::Accepted(AcceptedReply {
                    verifier: OpaqueAuth::none(),
                    body: AcceptedReplyBody::Success(answer.clone()),
                })),
            })
            .unwrap();
            assert_eq!(whole, decode_fragment(&reply(to_bytes(&answer).unwrap())).unwrap().0);
            encode_fragment(&whole).unwrap()
        };
        self.outgoing.extend(record);
        Ok(())
    }

    fn read_exact(&mut self, len: usize) -> Result<Vec<u8>, std::io::Error> {
        if self.outgoing.len() < len {
            return Err(std::io::Error::new(std::io::ErrorKind::UnexpectedEof, "nothing to read"));
        }
        Ok(self.outgoing.drain(..len).collect())
    }
}

fn connected() -> (Link<Server>, Client) {
    connected_to(Server::new())
}

fn connected_to(server: Server) -> (Link<Server>, Client) {
    let mut server = Link::new(server);
    let client = Client::new(&mut server).unwrap();
    (server, client)
}

fn test_contents() -> Vec<u8> {
    (0..100_000).map(|v| (v % 255) as u8).collect()
}

fn size_of(client: &mut Client, server: &mut Link<Server>, path: &str) -> u64 {
    let handle = client.look_up(server, path).unwrap();
    let reply = client.get_attr(server, handle).unwrap();
    *reply.object_attributes.get_as::<u64>(FileAttributeId::Size).unwrap()
}

#[test]
fn ping() {
    let mut transport = Link::new(Server::new());
    let mut client = RpcClient::new(PORT_MAPPER);
    client.send_request(&mut transport, NULL_PROCEDURE, ()).unwrap();
    client.receive_reply::<(), Server>(&mut transport).unwrap();
    assert_eq!(transport.transport().calls, vec![(1, PORT_MAPPER, NULL_PROCEDURE)]);
}

#[test]
fn the_handshake_opens_a_session_and_learns_the_limits_of_the_server() {
    let (server, client) = connected();
    assert!(client.max_read_size() >= 4096);
    assert!(client.max_write_size() >= 4096);
    assert_eq!((client.max_read_size(), client.max_write_size()), (8192, 4096));
    let supported = client.supported();
    for id in [
        FileAttributeId::Size,
        FileAttributeId::Mode,
        FileAttributeId::Type,
        FileAttributeId::FileHandle,
        FileAttributeId::TimeModify,
    ] {
        assert!(supported.contains(id));
    }
    assert_eq!(supported, Server::supported());
    assert_eq!(client.next_sequence_id(), 2);

    assert_eq!(server.transport().calls, vec![(1, NFS, 1), (2, NFS, 1), (3, NFS, 1)]);
    assert_eq!(server.transport().operations(0), vec![OperationId::ExchangeId]);
    assert_eq!(server.transport().operations(1), vec![OperationId::CreateSession]);
    assert_eq!(
        server.transport().operations(2),
        vec![
            OperationId::Sequence,
            OperationId::ReclaimComplete,
            OperationId::PutRootFh,
            OperationId::GetAttr
        ]
    );
    for compound in &server.transport().compounds {
        assert_eq!(compound.tag, "Test Client");
        assert_eq!(compound.minor_version, 1);
    }
    let ArgOp::ExchangeId(exchange) = &server.transport().compounds[0].arg_array[0] else { panic!() };
    assert_eq!(exchange.client_owner.verifier, Verifier(0));
    assert_eq!(exchange.client_owner.owner_id.len(), 8);
    assert_eq!(exchange.flags, ExchangeIdFlags::empty());
    assert_eq!(exchange.state_protect, StateProtect::Null);
    assert_eq!(exchange.client_impl_id, None);
    let ArgOp::CreateSession(create) = &server.transport().compounds[1].arg_array[0] else { panic!() };
    assert_eq!(create.client_id, ClientId(77));
    assert_eq!(create.sequence_id, SequenceId(1));
    assert_eq!(create.flags, CreateSessionFlags::empty());
    assert_eq!(create.program, NFS_CB);
    assert_eq!(create.program, 0x4000_0000);
    assert!(create.security_parameters.is_empty());
    let fore = &create.fore_channel_attrs;
    assert_eq!(
        (
            fore.header_pad_size,
            fore.max_request_size,
            fore.max_response_size,
            fore.max_response_size_cached,
            fore.max_operations,
            fore.max_requests,
            fore.rdma_ird
        ),
        (0, 1_049_620, 1_049_480, 7584, 16, 64, None)
    );
    let back = &create.back_channel_attrs;
    assert_eq!(
        (
            back.header_pad_size,
            back.max_request_size,
            back.max_response_size,
            back.max_response_size_cached,
            back.max_operations,
            back.max_requests,
            back.rdma_ird
        ),
        (0, 4096, 4096, 0, 16, 16, None)
    );
    let ArgOp::Sequence(sequence) = &server.transport().compounds[2].arg_array[0] else { panic!() };
    assert_eq!(sequence.session_id, SessionId([0xab; 16]));
    assert_eq!(sequence.sequence_id, SequenceId(1));
    assert_eq!((sequence.slot_id, sequence.highest_slot_id), (SlotId(0), SlotId(0)));
    assert!(!sequence.cache_this);
    let ArgOp::ReclaimComplete(reclaim) = &server.transport().compounds[2].arg_array[1] else { panic!() };
    assert!(!reclaim.one_fs);
    let ArgOp::GetAttr(get) = &server.transport().compounds[2].arg_array[3] else { panic!() };
    assert_eq!(
        get.attr_request.to_vec(),
        vec![FileAttributeId::SupportedAttrs, FileAttributeId::MaxRead, FileAttributeId::MaxWrite]
    );
}

#[test]
fn each_connection_draws_its_owner_anew() {
    let owners: BTreeSet<Vec<u8>> = (0..8).map(|_| connected().0.transport().owner.clone().unwrap()).collect();
    assert!(owners.len() > 1);
}

#[test]
fn upload_download() {
    let (mut transport, mut client) = connected();
    let parent = client.look_up(&mut transport, "/files").unwrap();
    let handle = client.create_file(&mut transport, parent.clone(), "a_file").unwrap();

    let test_contents = test_contents();
    client.write_all(&mut transport, handle.clone(), &test_contents[..]).unwrap();

    let mut read_data = vec![];
    client.read_all(&mut transport, handle.clone(), &mut read_data).unwrap();
    assert_eq!(read_data, test_contents);

    let reply = client.get_attr(&mut transport, handle).unwrap();
    assert_eq!(
        *reply.object_attributes.get_as::<u64>(FileAttributeId::Size).unwrap(),
        read_data.len() as u64
    );
    assert_eq!(size_of(&mut client, &mut transport, "/files/a_file"), 100000);

    let mut expected = std::collections::HashSet::new();
    expected.insert("a_file".to_string());
    for i in 0..100 {
        let name = format!("a_file{i}");
        client.create_file(&mut transport, parent.clone(), &name).unwrap();
        expected.insert(name);
    }
    let entries = client.read_dir(&mut transport, parent).unwrap();
    assert_eq!(entries.len(), 101);
    let actual: std::collections::HashSet<String> = entries.into_iter().map(|e| e.name).collect();
    assert_eq!(actual, expected);
}

#[test]
fn linux_server() {
    let created = |client: &mut Client, server: &mut Link<Server>, path: &str| {
        let parent = client.look_up(server, &parent_of(path)).unwrap();
        client.create_file(server, parent, &path[path.rfind('/').unwrap() + 1..]).unwrap()
    };

    // a file that was created is found
    let (mut server, mut client) = connected();
    created(&mut client, &mut server, "/files/a_file");
    client.look_up(&mut server, "/files/a_file").unwrap();

    // a directory lists what was created in it
    let (mut server, mut client) = connected();
    let parent = client.look_up(&mut server, "/files").unwrap();
    let mut expected = BTreeSet::new();
    for i in 0..100 {
        let name = format!("a_file{i}");
        client.create_file(&mut server, parent.clone(), &name).unwrap();
        expected.insert(name);
    }
    let entries = client.read_dir(&mut server, parent.clone()).unwrap();
    let actual: BTreeSet<String> = entries.into_iter().map(|e| e.name).collect();
    assert_eq!(actual, expected);

    // what was written is read
    let (mut server, mut client) = connected();
    let handle = created(&mut client, &mut server, "/files/a_file");
    let test_contents = test_contents();
    client.write_all(&mut server, handle.clone(), &test_contents[..]).unwrap();
    let mut read_data = vec![];
    client.read_all(&mut server, handle.clone(), &mut read_data).unwrap();
    assert_eq!(read_data, test_contents);
    assert_eq!(size_of(&mut client, &mut server, "/files/a_file"), read_data.len() as u64);

    // a file that was removed is not found
    let (mut server, mut client) = connected();
    created(&mut client, &mut server, "/files/a_file");
    let parent = client.look_up(&mut server, "/files").unwrap();
    client.remove(&mut server, parent, "a_file").unwrap();
    client.look_up(&mut server, "/files/a_file").unwrap_err();

    // a file that was renamed is found under its new name
    let (mut server, mut client) = connected();
    created(&mut client, &mut server, "/files/a_file");
    let parent = client.look_up(&mut server, "/files").unwrap();
    client.rename(&mut server, parent.clone(), parent, "a_file", "b_file").unwrap();
    client.look_up(&mut server, "/files/a_file").unwrap_err();
    client.look_up(&mut server, "/files/b_file").unwrap();

    // a size that was set is the size
    let (mut server, mut client) = connected();
    let handle = created(&mut client, &mut server, "/files/a_file");
    client
        .set_attr(&mut server, handle.clone(), EnumMap::from_vec(vec![FileAttribute::Size(100)]))
        .unwrap();
    let reply = client.get_attr(&mut server, handle).unwrap();
    assert_eq!(*reply.object_attributes.get_as::<u64>(FileAttributeId::Size).unwrap(), 100);
}

#[test]
fn a_file_that_was_removed_is_reported_as_missing() {
    let (mut server, mut client) = connected();
    let parent = client.look_up(&mut server, "/files").unwrap();
    client.create_file(&mut server, parent.clone(), "a_file").unwrap();
    client.remove(&mut server, parent.clone(), "a_file").unwrap();
    assert!(matches!(
        client.look_up(&mut server, "/files/a_file"),
        Err(Error::Protocol(StatusError::NoEnt))
    ));
    assert!(matches!(
        client.remove(&mut server, parent, "a_file"),
        Err(Error::Protocol(StatusError::NoEnt))
    ));
    let n = server.transport().compounds.len();
    assert_eq!(
        server.transport().operations(n - 1),
        vec![OperationId::Sequence, OperationId::PutFh, OperationId::Remove]
    );
}

#[test]
fn a_rename_puts_and_saves_the_source_and_puts_the_target() {
    let (mut server, mut client) = connected();
    let parent = client.look_up(&mut server, "/files").unwrap();
    let root = client.look_up(&mut server, "/").unwrap();
    client.create_file(&mut server, parent.clone(), "a_file").unwrap();
    client.rename(&mut server, parent, root, "a_file", "b_file").unwrap();
    let n = server.transport().compounds.len();
    assert_eq!(
        server.transport().operations(n - 1),
        vec![
            OperationId::Sequence,
            OperationId::PutFh,
            OperationId::SaveFh,
            OperationId::PutFh,
            OperationId::Rename
        ]
    );
    assert!(matches!(
        client.look_up(&mut server, "/files/a_file"),
        Err(Error::Protocol(StatusError::NoEnt))
    ));
    assert_eq!(client.look_up(&mut server, "/b_file").unwrap(), FileHandle(b"/b_file".to_vec()));
}

#[test]
fn the_sequence_number_advances_by_one_for_each_compound() {
    let (mut server, mut client) = connected();
    assert_eq!(client.next_sequence_id(), 2);
    let parent = client.look_up(&mut server, "/files").unwrap();
    assert_eq!(client.next_sequence_id(), 3);
    let handle = client.create_file(&mut server, parent.clone(), "a_file").unwrap();
    assert_eq!(client.next_sequence_id(), 4);
    client.look_up(&mut server, "/files/missing").unwrap_err();
    assert_eq!(client.next_sequence_id(), 5);
    for n in 0..20 {
        assert_eq!(client.next_sequence_id(), 5 + n);
        client.read(&mut server, handle.clone(), 0, 1).unwrap();
    }
    client.write_all(&mut server, handle.clone(), &[1; 10_000]).unwrap();
    assert_eq!(client.next_sequence_id(), 25 + 3);
    let mut sink = vec![];
    client.read_all(&mut server, handle, &mut sink).unwrap();
    assert_eq!(client.next_sequence_id(), 28 + 2);
    let seen = server.transport().sequence_ids();
    assert_eq!(seen, (1..30).collect::<Vec<u32>>());
    assert_eq!(server.transport().calls.iter().map(|c| c.0).collect::<Vec<u32>>(), (1..=31).collect::<Vec<u32>>());
}

#[test]
fn a_path_is_looked_up_from_the_root_component_by_component() {
    let (mut server, mut client) = connected();
    let parent = client.look_up(&mut server, "/files").unwrap();
    client.create_file(&mut server, parent, "a_file").unwrap();
    let handle = client.look_up(&mut server, "//files/./a_file/").unwrap();
    assert_eq!(handle, FileHandle(b"/files/a_file".to_vec()));
    let last = server.transport().compounds.last().unwrap();
    assert_eq!(
        last.arg_array[1..],
        [
            ArgOp::PutRootFh,
            ArgOp::LookUp(nfs4_client::args::LookUpArgs { object_name: "files".to_string() }),
            ArgOp::LookUp(nfs4_client::args::LookUpArgs { object_name: "a_file".to_string() }),
            ArgOp::GetFh
        ]
    );
    assert_eq!(client.look_up(&mut server, "/").unwrap(), FileHandle(b"/".to_vec()));
}

#[test]
fn attributes_are_read_without_those_that_only_set_a_time() {
    let (mut server, mut client) = connected();
    let handle = client.look_up(&mut server, "/files").unwrap();
    let reply = client.get_attr(&mut server, handle.clone()).unwrap();
    let attrs = reply.object_attributes;
    assert_eq!(attrs.get_as::<FileType>(FileAttributeId::Type), Some(&FileType::Directory));
    assert_eq!(attrs.get_as::<Mode>(FileAttributeId::Mode), Some(&Mode(0o644)));
    assert_eq!(attrs.get_as::<FileHandle>(FileAttributeId::FileHandle), Some(&handle));
    let last = server.transport().compounds.last().unwrap();
    assert_eq!(last.arg_array[1], ArgOp::PutFh(nfs4_client::args::PutFhArgs { object: handle }));
    let ArgOp::GetAttr(get) = &last.arg_array[2] else { panic!() };
    let mut asked = Server::supported();
    assert!(asked.remove(FileAttributeId::TimeAccessSet));
    assert!(asked.remove(FileAttributeId::TimeModifySet));
    assert_eq!(get.attr_request, asked);
    assert_eq!(client.readable_attrs(), asked);
}

#[test]
fn a_file_is_created_for_writing_under_the_owner_of_the_client() {
    let (mut server, mut client) = connected();
    let parent = client.look_up(&mut server, "/files").unwrap();
    let handle = client.create_file(&mut server, parent.clone(), "a_file").unwrap();
    assert_eq!(handle, FileHandle(b"/files/a_file".to_vec()));
    let last = server.transport().compounds.last().unwrap();
    assert_eq!(
        last.arg_array.iter().map(|op| op.operation_id()).collect::<Vec<_>>(),
        vec![OperationId::Sequence, OperationId::PutFh, OperationId::Open, OperationId::GetFh]
    );
    let ArgOp::Open(open) = &last.arg_array[2] else { panic!() };
    assert_eq!(open.sequence_id, SequenceId(0));
    assert_eq!(open.share_access.bits, ShareAccess::WRITE);
    assert_eq!(open.share_deny.bits, 0);
    assert_eq!(open.owner.client_id, ClientId(77));
    assert_eq!(Some(&open.owner.opaque), server.transport().owner.as_ref());
    assert_eq!(
        open.open_how,
        OpenFlag::OpenCreate(CreateHow::Exclusive { create_verifier: Verifier(0) })
    );
    assert_eq!(open.claim, OpenClaim::Null { file: "a_file".to_string() });
    assert!(matches!(
        client.create_file(&mut server, parent, "a_file"),
        Err(Error::Protocol(StatusError::Exist))
    ));
}

#[test]
fn reads_and_writes_use_the_anonymous_state_identifier() {
    let (mut server, mut client) = connected();
    let parent = client.look_up(&mut server, "/files").unwrap();
    let handle = client.create_file(&mut server, parent, "a_file").unwrap();
    let written = client.write(&mut server, handle.clone(), 3, vec![1, 2, 3]).unwrap();
    assert_eq!(written.count, 3);
    let ArgOp::Write(write) = &server.transport().compounds.last().unwrap().arg_array[2] else { panic!() };
    assert_eq!(write.state_id, StateId { sequence_id: 0, other: [0; 12] });
    assert_eq!(write.state_id, StateId::anonymous());
    assert_eq!((write.offset, write.stable), (3, StableHow::FileSync));
    assert_eq!(write.data, vec![1, 2, 3]);
    let read = client.read(&mut server, handle, 2, 100).unwrap();
    assert_eq!(read, ReadRes { eof: true, data: vec![0, 1, 2, 3] });
    let ArgOp::Read(args) = &server.transport().compounds.last().unwrap().arg_array[2] else { panic!() };
    assert_eq!(args.state_id, StateId::anonymous());
    assert_eq!((args.offset, args.count), (2, 100));
}

#[test]
fn a_file_is_written_in_chunks_and_short_writes_are_made_up_for() {
    for (max_write, takes_at_most) in [(4096u64, u32::MAX), (1000, 333), (7, 7), (100_000, 1), (1 << 40, 99_999)] {
        let mut server = Server::new();
        server.max_write = max_write;
        server.takes_at_most = takes_at_most;
        let (mut server, mut client) = connected_to(server);
        let parent = client.look_up(&mut server, "/files").unwrap();
        let handle = client.create_file(&mut server, parent, "a_file").unwrap();
        let contents: Vec<u8> = (0..5000u32).map(|v| (v % 255) as u8).collect();
        let before = server.transport().compounds.len();
        client.write_all(&mut server, handle, &contents).unwrap();
        assert_eq!(server.transport().files["/files/a_file"], contents);
        let mut at = 0;
        for compound in &server.transport().compounds[before..] {
            let ArgOp::Write(write) = &compound.arg_array[2] else { panic!() };
            assert_eq!(write.offset, at);
            assert!(write.data.len() as u64 <= max_write);
            assert_eq!(write.data[..], contents[at as usize..at as usize + write.data.len()]);
            at += (write.data.len() as u64).min(takes_at_most as u64);
        }
        assert_eq!(at, 5000);
    }
}

#[test]
fn a_file_is_read_until_the_server_says_that_it_has_ended() {
    for max_read in [1u64, 100, 4096, 100_000, 1 << 40] {
        let mut server = Server::new();
        server.max_read = max_read;
        server.files.insert("/files/a_file".to_string(), (0..3000u32).map(|v| v as u8).collect());
        let (mut server, mut client) = connected_to(server);
        let handle = client.look_up(&mut server, "/files/a_file").unwrap();
        let mut sink = vec![0xee];
        client.read_all(&mut server, handle, &mut sink).unwrap();
        assert_eq!(sink[0], 0xee);
        assert_eq!(sink[1..], server.transport().files["/files/a_file"][..]);
        let ArgOp::Read(read) = &server.transport().compounds.last().unwrap().arg_array[2] else { panic!() };
        assert_eq!(read.count as u64, max_read.min(u32::MAX as u64));
        assert_eq!(client.read_count() as u64, max_read.min(u32::MAX as u64));
    }
    let (mut server, mut client) = connected();
    server.transport_mut().files.insert("/files/empty".to_string(), vec![]);
    let handle = client.look_up(&mut server, "/files/empty").unwrap();
    let mut sink = vec![];
    client.read_all(&mut server, handle, &mut sink).unwrap();
    assert!(sink.is_empty());
}

#[test]
fn a_directory_is_listed_part_by_part_from_the_cookie_of_the_last_entry() {
    let (mut server, mut client) = connected();
    let parent = client.look_up(&mut server, "/files").unwrap();
    for i in 0..20 {
        client.create_file(&mut server, parent.clone(), &format!("f{i:02}")).unwrap();
    }
    let before = server.transport().compounds.len();
    let entries = client.read_dir(&mut server, parent.clone()).unwrap();
    assert_eq!(
        entries.iter().map(|e| e.name.clone()).collect::<Vec<_>>(),
        (0..20).map(|i| format!("f{i:02}")).collect::<Vec<_>>()
    );
    assert_eq!(entries[3].attrs.get_as::<u64>(FileAttributeId::Size), Some(&0));
    let cookies: Vec<u64> = server.transport().compounds[before..]
        .iter()
        .map(|c| match &c.arg_array[2] {
            ArgOp::ReadDir(args) => {
                assert_eq!(c.arg_array[1], ArgOp::PutFh(nfs4_client::args::PutFhArgs { object: parent.clone() }));
                assert_eq!(args.cookie_verifier, Verifier(0));
                assert_eq!((args.directory_count, args.max_count), (1000, 1000));
                assert_eq!(args.attr_request, Server::supported());
                args.cookie.0
            }
            _ => panic!(),
        })
        .collect();
    assert_eq!(cookies, vec![0, 7, 14]);
    let root = client.look_up(&mut server, "/").unwrap();
    let top = client.read_dir(&mut server, root).unwrap();
    assert_eq!(top.iter().map(|e| e.name.as_str()).collect::<Vec<_>>(), vec!["files"]);
    server.transport_mut().files.clear();
    assert!(client.read_dir(&mut server, parent).unwrap().is_empty());
}

#[test]
fn a_server_that_makes_no_progress_is_not_asked_for_ever() {
    let (mut server, mut client) = connected();
    let parent = client.look_up(&mut server, "/files").unwrap();
    let handle = client.create_file(&mut server, parent.clone(), "a_file").unwrap();
    client.write_all(&mut server, handle.clone(), &[1, 2, 3]).unwrap();
    server.transport_mut().stalls = true;
    let mut sink = vec![];
    assert!(matches!(client.read_all(&mut server, handle.clone(), &mut sink), Err(Error::Stalled)));
    assert!(matches!(client.write_all(&mut server, handle.clone(), &[1]), Err(Error::Stalled)));
    assert!(matches!(client.read_dir(&mut server, parent), Err(Error::Stalled)));
    assert!(client.write_all(&mut server, handle.clone(), &[]).is_ok());
    server.transport_mut().stalls = false;
    server.transport_mut().max_write = 0;
    let mut unable = Client::new(&mut server).unwrap();
    assert!(matches!(unable.write_all(&mut server, handle.clone(), &[1]), Err(Error::Stalled)));
    assert!(unable.write_all(&mut server, handle, &[]).is_ok());
}

#[test]
fn a_server_that_takes_more_than_it_was_sent_is_reported() {
    assert!(matches!(nfs4_client::client::write_step(0, 10, 11), Err(Error::Unanswered)));
    assert!(matches!(nfs4_client::client::write_step(5, 10, 5), Ok(10)));
    assert!(matches!(nfs4_client::client::write_step(5, 10, 0), Err(Error::Stalled)));
    assert_eq!(nfs4_client::client::write_chunk(25, 10, 10), 20);
    assert_eq!(nfs4_client::client::write_chunk(25, 20, 10), 25);
    assert_eq!(nfs4_client::client::write_chunk(25, 25, 10), 25);
    assert!(matches!(nfs4_client::client::read_step(10, 5, false), Ok(Some(15))));
    assert!(matches!(nfs4_client::client::read_step(10, 0, true), Ok(None)));
    assert!(matches!(nfs4_client::client::read_step(10, 5, true), Ok(None)));
    assert!(matches!(nfs4_client::client::read_step(10, 0, false), Err(Error::Stalled)));
    assert!(matches!(nfs4_client::client::read_step(u64::MAX, 1, false), Err(Error::Unanswered)));
}

#[test]
fn results_that_are_not_those_of_the_request_are_reported() {
    let (mut server, mut client) = connected();
    let sequence = |n: u32| {
        ResOp::Sequence(StatusResult::Success(SequenceRes {
            session_id: SessionId([0xab; 16]),
            sequence_id: SequenceId(n),
            slot_id: SlotId(0),
            highest_slot_id: SlotId(0),
            target_highest_slot_id: SlotId(0),
            status_flags: SequenceStatusFlags::empty(),
        }))
    };
    let ok = || StatusResult::Success(());
    server.transport_mut().answers_with = Some(vec![sequence(2), ResOp::PutRootFh(ok())]);
    assert!(matches!(
        client.look_up(&mut server, "/"),
        Err(Error::CompoundResponseMismatch(Mismatch::TooFewReplies))
    ));
    server.transport_mut().answers_with = Some(vec![sequence(3), ResOp::PutFh(ok()), ResOp::PutRootFh(ok())]);
    assert!(matches!(
        client.look_up(&mut server, "/"),
        Err(Error::CompoundResponseMismatch(Mismatch::Unexpected {
            expected: OperationId::PutRootFh,
            found: OperationId::PutFh
        }))
    ));
    server.transport_mut().answers_with = Some(vec![
        sequence(4),
        ResOp::PutRootFh(ok()),
        ResOp::GetFh(StatusResult::Success(GetFhRes { object: FileHandle(vec![1]) })),
        ResOp::SaveFh(ok()),
    ]);
    assert!(matches!(
        client.look_up(&mut server, "/"),
        Err(Error::CompoundResponseMismatch(Mismatch::TrailingReplies))
    ));
    assert_eq!(client.look_up(&mut server, "/").unwrap(), FileHandle(b"/".to_vec()));
    assert_eq!(client.next_sequence_id(), 6);
}

/// A server that answers the last request of the handshake with one
/// attribute where three were asked for.
struct Forgetful(Server);

impl Transport for Forgetful {
    fn write_all(&mut self, bytes: &[u8]) -> Result<(), std::io::Error> {
        if self.0.compounds.len() == 2 {
            self.0.answers_with = Some(vec![
                ResOp::Sequence(StatusResult::Success(SequenceRes {
                    session_id: SessionId([0xab; 16]),
                    sequence_id: SequenceId(1),
                    slot_id: SlotId(0),
                    highest_slot_id: SlotId(0),
                    target_highest_slot_id: SlotId(0),
                    status_flags: SequenceStatusFlags::empty(),
                })),
                ResOp::ReclaimComplete(StatusResult::Success(())),
                ResOp::PutRootFh(StatusResult::Success(())),
                ResOp::GetAttr(StatusResult::Success(GetAttrRes {
                    object_attributes: EnumMap::from_vec(vec![FileAttribute::MaxRead(1)]),
                })),
            ]);
        }
        self.0.write_all(bytes)
    }

    fn read_exact(&mut self, len: usize) -> Result<Vec<u8>, std::io::Error> {
        self.0.read_exact(len)
    }
}

#[test]
fn a_server_that_leaves_out_its_limits_is_reported() {
    let mut forgetful = Link::new(Forgetful(Server::new()));
    assert!(matches!(Client::new(&mut forgetful), Err(Error::Unanswered)));
}

#[test]
fn a_transport_that_fails_fails_the_request() {
    struct Closed;
    impl Transport for Closed {
        fn write_all(&mut self, _: &[u8]) -> Result<(), std::io::Error> {
            Err(std::io::Error::new(std::io::ErrorKind::BrokenPipe, "closed"))
        }

        fn read_exact(&mut self, _: usize) -> Result<Vec<u8>, std::io::Error> {
            Err(std::io::Error::new(std::io::ErrorKind::BrokenPipe, "closed"))
        }
    }
    let mut closed = Link::new(Closed);
    assert!(matches!(
        Client::new(&mut closed),
        Err(Error::SunRpc(nfs4_client::rpc_client::Error::Io(_)))
    ));
    let (_, mut client) = connected();
    assert!(matches!(
        client.look_up(&mut closed, "/"),
        Err(Error::SunRpc(nfs4_client::rpc_client::Error::Io(_)))
    ));
    assert_eq!(client.next_sequence_id(), 3);
}

/// A server whose connection breaks after a number of requests.
struct Breaks {
    server: Server,
    requests_left: usize,
}

impl Transport for Breaks {
    fn write_all(&mut self, bytes: &[u8]) -> Result<(), std::io::Error> {
        if self.requests_left == 0 {
            return Err(std::io::Error::new(std::io::ErrorKind::BrokenPipe, "broken"));
        }
        self.requests_left -= 1;
        self.server.write_all(bytes)
    }

    fn read_exact(&mut self, len: usize) -> Result<Vec<u8>, std::io::Error> {
        self.server.read_exact(len)
    }
}

#[test]
fn a_handshake_that_breaks_gives_the_error_of_the_request_that_broke() {
    for requests_left in 0..3 {
        let mut link = Link::new(Breaks { server: Server::new(), requests_left });
        assert!(matches!(
            Client::new(&mut link),
            Err(Error::SunRpc(nfs4_client::rpc_client::Error::Io(_)))
        ));
        assert_eq!(link.transport().server.compounds.len(), requests_left);
    }
    let mut link = Link::new(Breaks { server: Server::new(), requests_left: 3 });
    let client = Client::new(&mut link).unwrap();
    assert_eq!(link.transport().server.compounds.len(), 3);
    assert_eq!(client.next_sequence_id(), 2);
    assert_eq!(client.max_read_size(), 8192);
    assert_eq!(client.max_write_size(), 4096);
    assert_eq!(client.supported(), Server::supported());
}

#[test]
fn a_read_that_fails_leaves_the_sink_with_what_was_read_before_it() {
    let mut server = Server::new();
    server.max_read = 1000;
    let contents: Vec<u8> = (0..3000u32).map(|v| (v % 251) as u8).collect();
    server.files.insert("/files/a_file".to_string(), contents.clone());
    let mut link = Link::new(Breaks { server, requests_left: 3 + 1 + 2 });
    let mut client = Client::new(&mut link).unwrap();
    let handle = client.look_up(&mut link, "/files/a_file").unwrap();
    let mut sink = vec![0xee];
    assert!(matches!(
        client.read_all(&mut link, handle, &mut sink),
        Err(Error::SunRpc(nfs4_client::rpc_client::Error::Io(_)))
    ));
    assert_eq!(sink[0], 0xee);
    assert_eq!(sink[1..], contents[..2000]);
    assert_eq!(client.next_sequence_id(), 6);
    let offsets: Vec<u64> = link.transport().server.compounds[4..]
        .iter()
        .map(|c| match &c.arg_array[2] {
            ArgOp::Read(read) => read.offset,
            _ => panic!(),
        })
        .collect();
    assert_eq!(offsets, vec![0, 1000]);
}

#[test]
fn a_listing_that_fails_gives_the_error_of_the_part_that_failed() {
    let mut server = Server::new();
    for i in 0..20 {
        server.files.insert(format!("/files/f{i:02}"), vec![]);
    }
    let mut link = Link::new(Breaks { server, requests_left: 3 + 1 + 2 });
    let mut client = Client::new(&mut link).unwrap();
    let parent = client.look_up(&mut link, "/files").unwrap();
    assert!(matches!(
        client.read_dir(&mut link, parent),
        Err(Error::SunRpc(nfs4_client::rpc_client::Error::Io(_)))
    ));
    assert_eq!(client.next_sequence_id(), 6);
    let cookies: Vec<u64> = link.transport().server.compounds[4..]
        .iter()
        .map(|c| match &c.arg_array[2] {
            ArgOp::ReadDir(args) => args.cookie.0,
            _ => panic!(),
        })
        .collect();
    assert_eq!(cookies, vec![0, 7]);
}

#[test]
fn a_write_moves_the_offset_and_the_place_in_the_chunk_by_what_was_taken() {
    let step = nfs4_client::client::write_step_at;
    assert!(matches!(step(100, 0, 10, 4), Ok((104, 4))));
    assert!(matches!(step(104, 4, 10, 6), Ok((110, 10))));
    assert!(matches!(step(0, 0, 10, 0), Err(Error::Stalled)));
    assert!(matches!(step(0, 4, 10, 7), Err(Error::Unanswered)));
    assert!(matches!(step(u64::MAX - 3, 0, 10, 4), Err(Error::Unanswered)));
    assert!(matches!(step(u64::MAX - 4, 0, 10, 4), Ok((u64::MAX, 4))));
}

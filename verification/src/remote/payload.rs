//! The addresses of a network install and the list of files announced to
//! the console.
use vstd::prelude::*;
use vstd::utf8::*;
use crate::bytes::spec_be_bytes;
use crate::utils::{flat_bytes, string_views, FileVecBuilder};

verus! {

/// The address of the console's installer: its IP and port 2000.
pub fn switch_address(switch_ip: &str) -> (r: String)
    ensures
        r@ == switch_ip@ + ":2000"@,
{
    let mut r = String::from_str(switch_ip);
    r.append(":2000");
    r
}

/// The address the file server listens on: the host's IP and port 8080.
pub fn server_url(host_ip: &str) -> (r: String)
    ensures
        r@ == host_ip@ + ":8080"@,
{
    let mut r = String::from_str(host_ip);
    r.append(":8080");
    r
}

/// The line that announces a file: its URL on the server, and a newline.
pub open spec fn payload_line(server_url: Seq<char>, path: Seq<char>) -> Seq<char> {
    server_url + "/file/"@ + path + seq!['\n']
}

/// What is sent to the console to announce the files at `paths`: the
/// length of the lines (four big-endian bytes, modulo 2^32), then the lines.
pub fn rom_list_payload(server_url: &str, paths: &Vec<String>) -> (r: Vec<u8>)
    ensures
        ({
            let lines = Seq::new(paths@.len(), |i: int| payload_line(server_url@, paths@[i]@));
            r@ == spec_be_bytes(flat_bytes(lines).len() % 0x1_0000_0000, 4) + flat_bytes(lines)
        }),
{
    let mut prefix = String::from_str(server_url);
    prefix.append("/file/");
    let mut b = FileVecBuilder::new().prefix(prefix.as_str());
    let ghost p = prefix@;
    assert(string_views(b.files@) =~= Seq::<Seq<char>>::empty());
    let mut i: usize = 0;
    while i < paths.len()
        invariant
            i <= paths@.len(),
            p == server_url@ + "/file/"@,
            b.prefix matches Some(x) && x@ == p,
            b.suffix is None,
            string_views(b.files@) == Seq::new(i as nat, |k: int| payload_line(server_url@, paths@[k]@)),
        decreases paths.len() - i,
    {
        b = b.file(paths[i].clone());
        assert(string_views(b.files@) =~= Seq::new((i + 1) as nat, |k: int| payload_line(server_url@, paths@[k]@)));
        i = i + 1;
    }
    b.build_net()
}

} // verus!

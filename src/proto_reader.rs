//! Collects the documents of a scan and their raw descriptor trees, and resolves them.
use vstd::prelude::*;
use crate::defs::views;
use crate::descriptor_set::{DescriptorSet, ProtoFile, ResolveError, empty_model, resolve, resolve_spec};
use crate::raw::RawFile;

verus! {

/// The documents found under a scan root, the raw descriptor trees that the parser gave
/// for them, and the directories searched for the documents they import.
pub struct ProtoReader {
    descriptors: Vec<RawFile>,
    include_dirs: Vec<String>,
    proto_files: Vec<ProtoFile>,
}

impl ProtoReader {
    /// The parsed descriptor trees.
    pub closed spec fn spec_descriptors(&self) -> Seq<RawFile> {
        self.descriptors@
    }

    /// The include directories, in order.
    pub closed spec fn spec_include_dirs(&self) -> Seq<Seq<char>> {
        views(self.include_dirs@)
    }

    /// The documents found, in order.
    pub closed spec fn spec_proto_files(&self) -> Seq<crate::descriptor_set::ProtoFileView> {
        views(self.proto_files@)
    }

    pub fn new() -> (r: ProtoReader)
        ensures
            r.spec_descriptors() == Seq::<RawFile>::empty(),
            r.spec_include_dirs() == Seq::<Seq<char>>::empty(),
            r.spec_proto_files() == Seq::<crate::descriptor_set::ProtoFileView>::empty(),
    {
        let r = ProtoReader { descriptors: Vec::new(), include_dirs: Vec::new(), proto_files: Vec::new() };
        assert(views(r.include_dirs@) =~= Seq::<Seq<char>>::empty());
        assert(views(r.proto_files@) =~= Seq::<crate::descriptor_set::ProtoFileView>::empty());
        r
    }

    /// Adds a directory to search for imported documents.
    pub fn add_include_dir(&mut self, dir: String)
        ensures
            final(self).spec_include_dirs() == old(self).spec_include_dirs().push(dir@),
            final(self).spec_descriptors() == old(self).spec_descriptors(),
            final(self).spec_proto_files() == old(self).spec_proto_files(),
    {
        let ghost before = views(self.include_dirs@);
        self.include_dirs.push(dir);
        assert(views(self.include_dirs@) =~= before.push(dir@));
    }

    /// Adds directories to search for imported documents, in order.
    pub fn add_include_dirs(&mut self, dirs: Vec<String>)
        ensures
            final(self).spec_include_dirs() == old(self).spec_include_dirs() + views(dirs@),
            final(self).spec_descriptors() == old(self).spec_descriptors(),
            final(self).spec_proto_files() == old(self).spec_proto_files(),
    {
        let ghost start = views(self.include_dirs@);
        let mut k: usize = 0;
        while k < dirs.len()
            invariant
                k <= dirs@.len(),
                views(self.include_dirs@) == start + views(dirs@.take(k as int)),
                self.spec_descriptors() == old(self).spec_descriptors(),
                self.spec_proto_files() == old(self).spec_proto_files(),
            decreases dirs@.len() - k,
        {
            let ghost before = views(self.include_dirs@);
            self.include_dirs.push(dirs[k].clone());
            assert(views(self.include_dirs@) =~= before.push(dirs@[k as int]@));
            assert(views(dirs@.take(k + 1)) =~= views(dirs@.take(k as int)).push(dirs@[k as int]@));
            k = k + 1;
        }
        assert(dirs@.take(k as int) =~= dirs@);
    }

    /// The include directories, in order.
    pub fn include_dirs(&self) -> (r: &Vec<String>)
        ensures
            views(r@) == self.spec_include_dirs(),
    {
        &self.include_dirs
    }

    /// Records the documents of a scan and the descriptor trees parsed from them: the
    /// documents replace those of an earlier scan, the trees are added to the others.
    pub fn add_parsed(&mut self, proto_files: Vec<ProtoFile>, descriptors: Vec<RawFile>)
        ensures
            final(self).spec_proto_files() == views(proto_files@),
            final(self).spec_descriptors() == old(self).spec_descriptors() + descriptors@,
            final(self).spec_include_dirs() == old(self).spec_include_dirs(),
    {
        self.proto_files = proto_files;
        let mut more = descriptors;
        self.descriptors.append(&mut more);
    }

    /// Resolves the parsed descriptor trees into a model.
    pub fn get_descriptor_set(&self) -> (r: Result<DescriptorSet, ResolveError>)
        ensures
            match resolve_spec(empty_model(), self.spec_proto_files(), self.spec_descriptors()) {
                Ok(v) => r matches Ok(x) && x@ == v,
                Err(e) => r matches Err(x) && x@ == e,
            },
    {
        let files = crate::defs::duplicate_vec(&self.proto_files);
        resolve(files, &self.descriptors)
    }
}

} // verus!

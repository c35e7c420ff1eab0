//! The source files of a run, by handle.

use vstd::prelude::*;

verus! {

/// The handle of a file held by a `FileData`.
#[derive(Clone, Copy, Debug, PartialEq, Eq, Structural)]
pub struct FileHandle(pub u32);

impl FileHandle {
    /// The handle of the first file added.
    pub fn dummy() -> (r: Self)
        ensures
            r.0 == 0,
    {
        FileHandle(0)
    }
}

/// Names and contents of the files read so far; a file's handle is its
/// position.
pub struct FileData {
    file_names: Vec<String>,
    file_contents: Vec<String>,
}

impl View for FileData {
    type V = Seq<(Seq<char>, Seq<char>)>;

    closed spec fn view(&self) -> Seq<(Seq<char>, Seq<char>)> {
        Seq::new(self.file_names@.len(), |i: int| (self.file_names@[i]@, self.file_contents@[i]@))
    }
}

impl FileData {
    pub closed spec fn wf(&self) -> bool {
        self.file_names@.len() == self.file_contents@.len()
    }

    pub fn new() -> (r: Self)
        ensures
            r.wf(),
            r@ == Seq::<(Seq<char>, Seq<char>)>::empty(),
    {
        let r = FileData { file_names: Vec::new(), file_contents: Vec::new() };
        assert(r@ =~= Seq::<(Seq<char>, Seq<char>)>::empty());
        r
    }

    /// Adds a file and returns its handle.
    pub fn add(&mut self, name: String, contents: String) -> (r: FileHandle)
        requires
            old(self).wf(),
            old(self)@.len() < u32::MAX,
        ensures
            final(self).wf(),
            final(self)@ == old(self)@.push((name@, contents@)),
            r.0 == old(self)@.len(),
    {
        let ghost entry = (name@, contents@);
        self.file_names.push(name);
        self.file_contents.push(contents);
        assert(final(self)@ =~= old(self)@.push(entry));
        FileHandle((self.file_contents.len() - 1) as u32)
    }

    pub fn get_name(&self, handle: FileHandle) -> (r: &str)
        requires
            self.wf(),
            handle.0 < self@.len(),
        ensures
            r@ == self@[handle.0 as int].0,
    {
        self.file_names[handle.0 as usize].as_str()
    }

    pub fn get_contents(&self, handle: FileHandle) -> (r: &str)
        requires
            self.wf(),
            handle.0 < self@.len(),
        ensures
            r@ == self@[handle.0 as int].1,
    {
        self.file_contents[handle.0 as usize].as_str()
    }
}

} // verus!

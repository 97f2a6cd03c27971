use vstd::prelude::*;

verus! {

/// The log messages of one thread, in the order they were logged.
pub struct LogBuffer {
    messages: Vec<String>,
}

impl View for LogBuffer {
    type V = Seq<Seq<char>>;

    closed spec fn view(&self) -> Seq<Seq<char>> {
        self.messages@.map_values(|m: String| m@)
    }
}

impl LogBuffer {
    pub fn new() -> (r: Self)
        ensures
            r@ == Seq::<Seq<char>>::empty(),
    {
        let r = LogBuffer { messages: Vec::new() };
        assert(r@ =~= Seq::<Seq<char>>::empty());
        r
    }

    /// Appends a message.
    pub fn log(&mut self, msg: String)
        ensures
            final(self)@ == old(self)@.push(msg@),
    {
        let ghost old_msgs = self.messages@;
        self.messages.push(msg);
        assert(self@ =~= old_msgs.map_values(|m: String| m@).push(msg@));
    }

    /// Number of messages.
    pub fn len(&self) -> (r: usize)
        ensures
            r == self@.len(),
    {
        self.messages.len()
    }

    /// The messages, oldest first.
    pub fn messages(&self) -> (r: &Vec<String>)
        ensures
            r@.map_values(|m: String| m@) == self@,
    {
        &self.messages
    }
}

/// The registry of the threads whose log buffers are dumped, in
/// registration order.
pub struct LogRegistry {
    buffers: Vec<usize>,
}

impl View for LogRegistry {
    type V = Seq<usize>;

    closed spec fn view(&self) -> Seq<usize> {
        self.buffers@
    }
}

impl LogRegistry {
    pub fn new() -> (r: Self)
        ensures
            r@ == Seq::<usize>::empty(),
    {
        LogRegistry { buffers: Vec::new() }
    }

    /// Registers the log buffer of a thread, identified by its address.
    pub fn register_thread(&mut self, buffer_addr: usize)
        ensures
            final(self)@ == old(self)@.push(buffer_addr),
    {
        self.buffers.push(buffer_addr);
    }

    /// The registered buffers, in registration order.
    pub fn registered(&self) -> (r: &Vec<usize>)
        ensures
            r@ == self@,
    {
        &self.buffers
    }
}

} // verus!
